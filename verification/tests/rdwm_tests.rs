use rdwm::atoms::{Atoms, NUM_ATOMS};
use rdwm::effect::{Atom, Effect, Window};
use rdwm::ewmh_manager::ClientRequest;
use rdwm::key_mapping::ActionEvent;
use rdwm::keyboard::KeyBindings;
use rdwm::rdwm::{close_effects, Event, StartupWindow, WindowManager, WindowManagerConfig};
use rdwm::state::ScreenConfig;
use rdwm::x11::WindowType;

fn atoms() -> Atoms {
    let ids: Vec<Atom> = (0..NUM_ATOMS as u32).map(|i| Atom::new(100 + i)).collect();
    Atoms::from_interned(&ids).unwrap()
}

fn manager() -> WindowManager {
    let mut key_bindings = KeyBindings::new();
    key_bindings.insert(36, 64, ActionEvent::Spawn("st"));
    key_bindings.insert(24, 64, ActionEvent::Kill);
    key_bindings.insert(41, 64, ActionEvent::ToggleFullscreen);
    key_bindings.insert(21, 65, ActionEvent::IncreaseWindowGap(u32::MAX));
    key_bindings.insert(21, 64, ActionEvent::IncreaseWindowGap(2));
    let config = WindowManagerConfig {
        key_bindings,
        screen_config: ScreenConfig {
            width: 800,
            height: 600,
            focused_border_pixel: 0,
            normal_border_pixel: 1,
        },
        atoms: atoms(),
        root_window: Window::new(1),
    };
    WindowManager::new(config, Window::new(2))
}

fn map(wm: &mut WindowManager, id: u32) -> Vec<Effect> {
    wm.handle_event(Event::MapRequest { window: Window::new(id), kind: WindowType::Managed })
        .effects
}

#[test]
fn a_fresh_manager_has_the_defaults() {
    let wm = manager();
    assert_eq!(wm.state().border_width(), 3);
    assert_eq!(wm.state().window_gap(), 0);
    assert_eq!(wm.state().current_workspace_id(), 0);
    assert_eq!(wm.key_bindings().len(), 5);
    assert_eq!(wm.state().usable_screen_height(), 600);
}

#[test]
fn map_request_ends_with_the_sync() {
    let mut wm = manager();
    let effects = map(&mut wm, 50);
    let sync = wm.ewmh_manager().sync_effects(wm.state());
    assert_eq!(
        effects[..5],
        [
            Effect::MapWindow(Window::new(50)),
            Effect::SetBorder { window: Window::new(50), pixel: 1, width: 3 },
            Effect::SetBorder { window: Window::new(50), pixel: 0, width: 3 },
            Effect::Focus(Window::new(50)),
            Effect::Configure { window: Window::new(50), x: 0, y: 0, w: 794, h: 594, border: 3 },
        ]
    );
    assert_eq!(effects[5..], sync[..]);
    assert_eq!(sync.len(), 7);
}

#[test]
fn key_presses_are_dispatched() {
    let mut wm = manager();
    let _ = map(&mut wm, 50);

    let spawn = wm.handle_event(Event::KeyPress { keycode: 36, state: 64 });
    assert_eq!(spawn.spawn, Some("st"));
    assert_eq!(spawn.close, None);
    assert_eq!(spawn.effects, wm.ewmh_manager().sync_effects(wm.state()));

    let kill = wm.handle_event(Event::KeyPress { keycode: 24, state: 64 });
    assert_eq!(kill.spawn, None);
    assert_eq!(kill.close, Some(Window::new(50)));
    assert_eq!(kill.effects, wm.ewmh_manager().sync_effects(wm.state()));

    let toggle = wm.handle_event(Event::KeyPress { keycode: 41, state: 64 | 0x100 });
    assert_eq!(toggle.spawn, None);
    assert_eq!(toggle.close, None);
    assert_eq!(toggle.effects[0], Effect::Raise(Window::new(50)));
    assert!(wm.state().is_window_fullscreen(Window::new(50)));

    let unbound = wm.handle_event(Event::KeyPress { keycode: 99, state: 0 });
    assert_eq!(unbound.effects, wm.ewmh_manager().sync_effects(wm.state()));

    let other = wm.handle_event(Event::Other);
    assert!(other.effects.is_empty());
    assert_eq!(other.spawn, None);
    assert_eq!(other.close, None);
}

#[test]
fn widening_the_gap_beyond_u32_is_not_accepted() {
    let mut wm = manager();
    assert!(wm.accepts(Event::KeyPress { keycode: 21, state: 65 }));
    assert!(wm.accepts(Event::KeyPress { keycode: 21, state: 64 }));
    let _ = wm.handle_event(Event::KeyPress { keycode: 21, state: 64 });
    assert_eq!(wm.state().window_gap(), 2);
    assert!(!wm.accepts(Event::KeyPress { keycode: 21, state: 65 }));
    assert!(wm.accepts(Event::KeyPress { keycode: 21, state: 64 }));
    assert!(wm.accepts(Event::Other));
}

#[test]
fn destroy_and_unmap_go_to_the_state() {
    let mut wm = manager();
    let _ = map(&mut wm, 50);
    let _ = map(&mut wm, 51);
    let unmap = wm.handle_event(Event::UnmapNotify { window: Window::new(51) });
    assert_eq!(
        unmap.effects[0],
        Effect::Configure { window: Window::new(50), x: 0, y: 0, w: 794, h: 594, border: 3 }
    );
    let destroy = wm.handle_event(Event::DestroyNotify { window: Window::new(50) });
    assert!(wm.state().window_workspace(Window::new(50)).is_none());
    assert_eq!(wm.state().focused_window(), Some(Window::new(51)));
    assert_eq!(destroy.effects, wm.ewmh_manager().sync_effects(wm.state()));
}

#[test]
fn client_messages_are_fulfilled() {
    let mut wm = manager();
    let _ = map(&mut wm, 50);
    assert!(!wm.needs_desktop_hint(Window::new(50)));
    assert!(wm.needs_desktop_hint(Window::new(60)));

    let closed = wm.handle_client_message(ClientRequest::Close(Window::new(50)), None, Some(true));
    assert_eq!(closed, vec![Effect::SendWmDelete(Window::new(50))]);
    let killed = wm.handle_client_message(ClientRequest::Close(Window::new(50)), None, None);
    assert_eq!(killed, vec![Effect::KillClient(Window::new(50))]);

    let switched = wm.handle_client_message(ClientRequest::SwitchDesktop(2), None, None);
    assert_eq!(wm.state().current_workspace_id(), 2);
    assert_eq!(switched, vec![Effect::Unmap(Window::new(50))]);

    let activated =
        wm.handle_client_message(ClientRequest::Activate(Window::new(50)), Some(7), None);
    assert_eq!(wm.state().current_workspace_id(), 0);
    assert_eq!(wm.state().focused_window(), Some(Window::new(50)));
    assert!(activated.contains(&Effect::MapWindow(Window::new(50))));
    assert!(activated.contains(&Effect::Focus(Window::new(50))));

    let ignored = wm.handle_client_message(ClientRequest::Ignore, None, None);
    assert!(ignored.is_empty());
}

#[test]
fn startup_windows_are_recorded() {
    let mut wm = manager();
    let children = [
        StartupWindow { window: Window::new(70), kind: WindowType::Dock, desktop: None },
        StartupWindow { window: Window::new(50), kind: WindowType::Managed, desktop: Some(1) },
        StartupWindow { window: Window::new(51), kind: WindowType::Managed, desktop: None },
        StartupWindow { window: Window::new(52), kind: WindowType::Unmanaged, desktop: Some(1) },
        StartupWindow { window: Window::new(53), kind: WindowType::Managed, desktop: Some(99) },
    ];
    let effects = wm.reassemble(&children, Some(1));
    assert_eq!(wm.state().current_workspace_id(), 1);
    assert_eq!(wm.state().dock_windows(), vec![Window::new(70)]);
    assert_eq!(wm.state().window_workspace(Window::new(50)), Some(1));
    assert_eq!(wm.state().window_workspace(Window::new(51)), None);
    assert_eq!(wm.state().window_workspace(Window::new(52)), None);
    assert_eq!(wm.state().window_workspace(Window::new(53)), None);
    assert_eq!(
        effects,
        vec![
            Effect::ConfigurePositionSize {
                window: Window::new(70),
                x: 0,
                y: 570,
                w: 800,
                h: 30
            },
            Effect::MapWindow(Window::new(50)),
            Effect::Configure { window: Window::new(50), x: 0, y: 0, w: 794, h: 564, border: 3 },
            Effect::SetBorder { window: Window::new(50), pixel: 1, width: 3 },
            Effect::SetBorder { window: Window::new(50), pixel: 0, width: 3 },
            Effect::Focus(Window::new(50)),
        ]
    );
}

#[test]
fn closing_comes_before_the_rest_of_the_turn() {
    let w = Window::new(9);
    let then = vec![Effect::Focus(Window::new(3))];
    assert_eq!(
        close_effects(w, Some(true), then.clone()),
        vec![Effect::SendWmDelete(w), Effect::Focus(Window::new(3))]
    );
    assert_eq!(
        close_effects(w, Some(false), then),
        vec![Effect::KillClient(w), Effect::Focus(Window::new(3))]
    );
}
