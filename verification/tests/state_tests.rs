use rdwm::config::NUM_WORKSPACES;
use rdwm::effect::{Effect, Window};
use rdwm::state::{ScreenConfig, State};
use rdwm::x11::WindowType;

fn make_state_with_windows(windows: &[(usize, u32, bool)], dock_height: u32) -> State {
    let screen = ScreenConfig {
        width: 800,
        height: 600,
        focused_border_pixel: 0,
        normal_border_pixel: 1,
    };

    let mut state = State::new(screen, 1, 0, dock_height);

    for (workspace_id, window_id, mapped) in windows {
        let window = Window::new(*window_id);
        state.track_startup_managed(window, *workspace_id);
        if !*mapped {
            state.set_client_mapped(*workspace_id, window, false);
        }
    }

    state
}

fn find_configure_height(effects: &[Effect], window: Window) -> Option<u32> {
    effects.iter().find_map(|effect| match effect {
        Effect::Configure { window: w, h, .. } if *w == window => Some(*h),
        _ => None,
    })
}

fn make_state(num_of_clients_per_workspace: u32) -> State {
    let screen = ScreenConfig {
        width: 800,
        height: 600,
        focused_border_pixel: 0,
        normal_border_pixel: 1,
    };
    let mut state = State::new(screen, 1, 0, 25);
    for i in 0..(num_of_clients_per_workspace * NUM_WORKSPACES as u32) {
        let workspace_id: usize = (i as usize) / NUM_WORKSPACES;
        let window = Window::new(i);
        state.track_startup_managed(window, workspace_id);
        if workspace_id > 0 {
            state.set_client_mapped(workspace_id, window, false);
        }
    }

    state
}

fn count_configures(effects: &[Effect]) -> usize {
    effects
        .iter()
        .filter(|effect| matches!(effect, Effect::Configure { .. }))
        .count()
}

#[test]
fn test_set_focus() {
    let mut state = make_state(10);
    let window_to_focus = Window::new(6);
    let effects = state.set_focus(window_to_focus);

    assert_eq!(state.focused_window().unwrap(), window_to_focus);
    assert!(effects.contains(&Effect::SetBorder {
        window: Window::new(0),
        pixel: state.screen().normal_border_pixel,
        width: state.border_width()
    }));
    assert!(effects.contains(&Effect::SetBorder {
        window: window_to_focus,
        pixel: state.screen().focused_border_pixel,
        width: state.border_width()
    }));
    assert!(effects.contains(&Effect::Focus(window_to_focus)));
}

#[test]
fn test_toggle_fullscreen() {
    let mut state = make_state(10);
    let window_to_fullsreen = Window::new(6);
    let _ = state.set_focus(window_to_fullsreen);
    let mut fullscreen_effects = state.toggle_fullscreen();

    // Test that we succesfully toggled window to fullscreen
    assert_eq!(state.focused_window().unwrap(), window_to_fullsreen);
    assert_eq!(
        state.current_workspace().get_fullscreen_window().unwrap(),
        window_to_fullsreen
    );
    assert!(state.is_window_fullscreen(window_to_fullsreen));
    assert!(fullscreen_effects.contains(&Effect::Raise(window_to_fullsreen)));
    assert!(fullscreen_effects.contains(&Effect::Configure {
        window: window_to_fullsreen,
        x: 0,
        y: 0,
        w: 800,
        h: 600,
        border: 0
    }));

    fullscreen_effects = state.toggle_fullscreen();

    assert_eq!(state.focused_window().unwrap(), window_to_fullsreen);
    assert_eq!(state.current_workspace().get_fullscreen_window(), None);
    assert!(!state.is_window_fullscreen(window_to_fullsreen));
    assert!(fullscreen_effects.contains(&Effect::Focus(window_to_fullsreen)))
}

#[test]
fn test_toggle_fullscreen_and_switch_focus() {
    let mut state = make_state(10);
    let window_to_fullsreen = Window::new(6);
    let window_to_focus = Window::new(2);
    let _ = state.set_focus(window_to_fullsreen);
    let _fullscreen_effects = state.toggle_fullscreen();
    let focus_effects = state.set_focus(window_to_focus);
    // We assert that our focus has not been stolen
    assert!(focus_effects.is_empty());
}

#[test]
fn test_toggle_fullscreen_and_kill_window() {
    let mut state = make_state(10);
    let window_to_fullsreen = Window::new(6);
    let expected_focus = Window::new(7);
    let _ = state.set_focus(window_to_fullsreen);
    let _fullscreen_effects = state.toggle_fullscreen();
    let destroy_effects = state.on_destroy(window_to_fullsreen);

    assert!(!state.is_window_fullscreen(window_to_fullsreen));
    assert_eq!(state.focused_window().unwrap(), expected_focus);
    assert!(destroy_effects.contains(&Effect::Focus(expected_focus)));
    assert_eq!(
        destroy_effects
            .iter()
            .filter(|effect| matches!(
                effect,
                Effect::Configure {
                    window: _,
                    x: _,
                    y: _,
                    w: _,
                    h: _,
                    border: _
                }
            ))
            .collect::<Vec<&Effect>>()
            .len(),
        9
    )
}

#[test]
fn test_toggle_fullscreen_and_send_to_workspace() {
    let mut state = make_state(10);
    let window_to_fullsreen = Window::new(6);
    let expected_focus = Window::new(7);
    let _ = state.set_focus(window_to_fullsreen);
    let _fullscreen_effects = state.toggle_fullscreen();
    let workspace_effects = state.send_to_workspace(1);

    assert!(!state.is_window_fullscreen(window_to_fullsreen));
    assert_eq!(state.window_workspace(window_to_fullsreen).unwrap(), 1);
    assert!(state
        .get_workspace(0)
        .unwrap()
        .index_of_window(window_to_fullsreen)
        .is_none());
    assert!(workspace_effects.contains(&Effect::Unmap(window_to_fullsreen)));
    assert!(workspace_effects.contains(&Effect::Focus(expected_focus)));
    assert_eq!(
        workspace_effects
            .iter()
            .filter(|effect| matches!(effect, Effect::Configure { .. }))
            .collect::<Vec<&Effect>>()
            .len(),
        9
    )
}

#[test]
fn test_toggle_fullscreen_and_go_to_workspace() {
    let mut state = make_state(10);
    let window_to_fullsreen = Window::new(6);
    let _ = state.set_focus(window_to_fullsreen);
    let _fullscreen_effects = state.toggle_fullscreen();
    let workspace_effects = state.go_to_workspace(1);

    assert!(!state.is_window_fullscreen(window_to_fullsreen));
    assert_eq!(state.current_workspace_id(), 1);
    assert_eq!(
        workspace_effects
            .iter()
            .filter(|effect| matches!(effect, Effect::Configure { .. }))
            .collect::<Vec<&Effect>>()
            .len(),
        10
    );
    assert_eq!(
        workspace_effects
            .iter()
            .filter(|effect| matches!(effect, Effect::Unmap(_)))
            .collect::<Vec<&Effect>>()
            .len(),
        10
    );
    assert_eq!(
        workspace_effects
            .iter()
            .filter(|effect| matches!(effect, Effect::MapWindow(_)))
            .collect::<Vec<&Effect>>()
            .len(),
        10
    )
}

#[test]
fn test_fullscreen_then_map_request_does_not_steal_focus() {
    let mut state = make_state_with_windows(&[(0, 1, true)], 25);
    let fullscreen_window = Window::new(1);
    let _ = state.set_focus(fullscreen_window);
    let _ = state.toggle_fullscreen();

    let new_window = Window::new(2);
    let effects = state.on_map_request(new_window, WindowType::Managed);

    assert_eq!(state.focused_window(), Some(fullscreen_window));
    assert!(state.is_window_fullscreen(fullscreen_window));
    assert!(effects.contains(&Effect::MapWindow(new_window)));
    assert!(!effects.contains(&Effect::Focus(new_window)));
    assert!(state.current_workspace().is_window_mapped(new_window));
}

#[test]
fn test_unmap_current_workspace_window_reconfigures() {
    let mut state = make_state_with_windows(&[(0, 1, true), (0, 2, true)], 25);
    let focus_window = Window::new(1);
    let other_window = Window::new(2);

    let _ = state.set_focus(focus_window);
    let effects = state.on_unmap(other_window);

    assert_eq!(state.focused_window(), Some(focus_window));
    assert!(!state.current_workspace().is_window_mapped(other_window));
    assert_eq!(
        effects
            .iter()
            .filter(|effect| matches!(effect, Effect::Configure { .. }))
            .collect::<Vec<&Effect>>()
            .len(),
        1
    );
}

#[test]
fn test_dock_reduces_configured_height() {
    let mut state = make_state_with_windows(&[(0, 1, true)], 25);
    let window = Window::new(1);

    let effects_no_dock = state.configure_windows(0);
    let height_no_dock = find_configure_height(&effects_no_dock, window).unwrap();

    state.track_startup_dock(Window::new(99));
    let effects_with_dock = state.configure_windows(0);
    let height_with_dock = find_configure_height(&effects_with_dock, window).unwrap();

    assert_eq!(height_no_dock, 598);
    assert_eq!(height_with_dock, 573);
    assert!(height_with_dock < height_no_dock);
}

#[test]
fn test_managed_windows_sorted_by_workspace_then_id() {
    let state = make_state_with_windows(&[(1, 3, false), (0, 2, true), (0, 1, true)], 25);
    // Ensure all are tracked
    assert_eq!(state.window_workspace(Window::new(1)), Some(0));
    assert_eq!(state.window_workspace(Window::new(2)), Some(0));
    assert_eq!(state.window_workspace(Window::new(3)), Some(1));

    let sorted = state.managed_windows_sorted();
    assert_eq!(sorted, vec![Window::new(1), Window::new(2), Window::new(3)]);
}

#[test]
fn test_client_list_includes_docks_after_managed() {
    let mut state = make_state_with_windows(&[(0, 5, true), (0, 2, true)], 25);
    state.track_startup_dock(Window::new(20));
    state.track_startup_dock(Window::new(10));

    let list = state.client_list_windows();
    assert_eq!(
        list,
        vec![
            Window::new(2),
            Window::new(5),
            Window::new(10),
            Window::new(20)
        ]
    );
}

#[test]
fn test_focus_window_uses_desktop_hint_when_untracked() {
    let mut state = make_state_with_windows(&[(0, 1, true), (1, 11, true)], 25);
    let effects = state.focus_window(Window::new(11), Some(1));

    assert_eq!(state.current_workspace_id(), 1);
    assert_eq!(state.focused_window(), Some(Window::new(11)));
    assert!(effects.iter().any(|e| matches!(e, Effect::MapWindow(_))));
    assert!(effects
        .iter()
        .any(|e| matches!(e, Effect::Configure { .. })));
}

#[test]
fn test_go_to_workspace_invalid_or_same_is_noop() {
    let mut state = make_state_with_windows(&[(0, 1, true)], 25);
    let effects_same = state.go_to_workspace(0);
    let effects_invalid = state.go_to_workspace(NUM_WORKSPACES + 1);

    assert!(effects_same.is_empty());
    assert!(effects_invalid.is_empty());
    assert_eq!(state.current_workspace_id(), 0);
}

#[test]
fn test_send_to_workspace_invalid_or_same_is_noop() {
    let mut state = make_state_with_windows(&[(0, 1, true)], 25);
    let effects_same = state.send_to_workspace(0);
    let effects_invalid = state.send_to_workspace(NUM_WORKSPACES + 1);

    assert!(effects_same.is_empty());
    assert!(effects_invalid.is_empty());
    assert_eq!(state.window_workspace(Window::new(1)), Some(0));
}

#[test]
fn test_increase_decrease_window_gap_reconfigures() {
    let mut state = make_state_with_windows(&[(0, 1, true), (0, 2, true)], 25);

    let effects_increase = state.increase_window_gap(1);
    assert_eq!(
        effects_increase
            .iter()
            .filter(|effect| matches!(effect, Effect::Configure { .. }))
            .count(),
        2
    );

    let effects_decrease = state.decrease_window_gap(1);
    assert_eq!(
        effects_decrease
            .iter()
            .filter(|effect| matches!(effect, Effect::Configure { .. }))
            .count(),
        2
    );

    let effects_noop = state.decrease_window_gap(1000);
    assert!(effects_noop.is_empty());
}

#[test]
fn test_increase_decrease_window_weight_reconfigures() {
    let mut state = make_state_with_windows(&[(0, 1, true), (0, 2, true)], 25);
    let _ = state.set_focus(Window::new(1));

    let effects_inc = state.increase_window_weight(2);
    assert_eq!(
        effects_inc
            .iter()
            .filter(|effect| matches!(effect, Effect::Configure { .. }))
            .count(),
        2
    );

    let effects_dec = state.decrease_window_weight(1);
    assert_eq!(
        effects_dec
            .iter()
            .filter(|effect| matches!(effect, Effect::Configure { .. }))
            .count(),
        2
    );
}

#[test]
fn test_map_request_unmanaged_is_simple_map() {
    let mut state = make_state_with_windows(&[(0, 1, true)], 25);
    let effects = state.on_map_request(Window::new(99), WindowType::Unmanaged);

    assert_eq!(effects, vec![Effect::MapWindow(Window::new(99))]);
    assert!(state.window_workspace(Window::new(99)).is_none());
}

#[test]
fn test_dock_map_and_destroy_updates_layout() {
    let mut state = make_state_with_windows(&[(0, 1, true)], 25);
    let dock = Window::new(50);

    let map_effects = state.on_map_request(dock, WindowType::Dock);
    assert!(map_effects.contains(&Effect::MapWindow(dock)));
    assert!(!state.dock_windows().is_empty());

    let destroy_effects = state.on_destroy(dock);
    assert!(!destroy_effects
        .iter()
        .any(|e| matches!(e, Effect::ConfigurePositionSize { .. })));
    assert!(state.dock_windows().is_empty());
}

#[test]
fn test_on_unmap_ignored_for_dock_and_unmanaged() {
    let mut state = make_state_with_windows(&[(0, 1, true)], 25);
    let dock = Window::new(77);
    state.track_startup_dock(dock);

    let effects_dock = state.on_unmap(dock);
    let effects_unmanaged = state.on_unmap(Window::new(88));

    assert!(effects_dock.is_empty());
    assert!(effects_unmanaged.is_empty());
}

#[test]
fn test_startup_finalize_switches_workspace_when_hint_provided() {
    let mut state = make_state_with_windows(&[(0, 1, true), (1, 11, false)], 25);
    let effects = state.startup_finalize(Some(1));

    assert_eq!(state.current_workspace_id(), 1);
    assert!(effects.iter().any(|e| matches!(e, Effect::MapWindow(_))));
    assert!(effects
        .iter()
        .any(|e| matches!(e, Effect::Configure { .. })));
}

#[test]
fn test_shift_focus_wraps_and_skips_unmapped() {
    let mut state = make_state_with_windows(&[(0, 1, true), (0, 2, false), (0, 3, true)], 25);

    let _ = state.set_focus(Window::new(1));
    let effects_forward = state.shift_focus(1);

    assert_eq!(state.focused_window(), Some(Window::new(3)));
    assert!(effects_forward.contains(&Effect::Focus(Window::new(3))));

    let effects_backward = state.shift_focus(-1);
    assert_eq!(state.focused_window(), Some(Window::new(1)));
    assert!(effects_backward.contains(&Effect::Focus(Window::new(1))));
}

#[test]
fn test_shift_focus_noop_when_only_one_mapped() {
    let mut state = make_state_with_windows(&[(0, 1, true), (0, 2, false)], 25);
    let _ = state.set_focus(Window::new(1));

    let effects = state.shift_focus(1);

    assert!(effects.is_empty());
    assert_eq!(state.focused_window(), Some(Window::new(1)));
}

#[test]
fn test_swap_window_swaps_with_next_mapped() {
    let mut state = make_state_with_windows(&[(0, 1, true), (0, 2, false), (0, 3, true)], 25);
    let _ = state.set_focus(Window::new(1));

    let effects = state.swap_window(1);

    let order: Vec<Window> = state.current_workspace().iter_windows();
    assert_eq!(order, vec![Window::new(3), Window::new(2), Window::new(1)]);
    assert_eq!(
        effects
            .iter()
            .filter(|effect| matches!(effect, Effect::Configure { .. }))
            .count(),
        2
    );
}

#[test]
fn test_swap_window_noop_when_no_other_mapped() {
    let mut state = make_state_with_windows(&[(0, 1, true)], 25);
    let _ = state.set_focus(Window::new(1));

    let effects = state.swap_window(1);

    assert!(effects.is_empty());
    let order: Vec<Window> = state.current_workspace().iter_windows();
    assert_eq!(order, vec![Window::new(1)]);
}

#[test]
fn focus_scenario_ten_clients() {
    let mut state = make_state(10);
    assert_eq!(state.focused_window(), Some(Window::new(0)));
    let effects = state.set_focus(Window::new(6));
    assert_eq!(
        effects,
        vec![
            Effect::SetBorder { window: Window::new(0), pixel: 1, width: 1 },
            Effect::SetBorder { window: Window::new(6), pixel: 0, width: 1 },
            Effect::Focus(Window::new(6)),
        ]
    );
    assert_eq!(state.focused_window(), Some(Window::new(6)));
}

#[test]
fn fullscreen_toggle_scenario() {
    let mut state = make_state(10);
    let six = Window::new(6);
    let _ = state.set_focus(six);
    let on = state.toggle_fullscreen();
    assert_eq!(
        on,
        vec![
            Effect::Raise(six),
            Effect::Configure { window: six, x: 0, y: 0, w: 800, h: 600, border: 0 },
            Effect::Raise(six),
            Effect::SetBorder { window: six, pixel: 1, width: 0 },
            Effect::SetBorder { window: six, pixel: 0, width: 0 },
            Effect::Focus(six),
            Effect::Raise(six),
        ]
    );
    assert_eq!(state.focused_window(), Some(six));
    assert_eq!(state.current_workspace().get_fullscreen_window(), Some(six));
    let off = state.toggle_fullscreen();
    assert_eq!(state.current_workspace().get_fullscreen_window(), None);
    assert_eq!(count_configures(&off), 10);
    assert!(off.contains(&Effect::Focus(six)));
}

#[test]
fn fullscreen_is_focus_sticky() {
    let mut state = make_state(10);
    let _ = state.set_focus(Window::new(6));
    let _ = state.toggle_fullscreen();
    let effects = state.set_focus(Window::new(2));
    assert_eq!(effects, vec![]);
    assert_eq!(state.focused_window(), Some(Window::new(6)));
}

#[test]
fn send_fullscreen_to_another_workspace() {
    let mut state = make_state(10);
    let six = Window::new(6);
    let _ = state.set_focus(six);
    let _ = state.toggle_fullscreen();
    let effects = state.send_to_workspace(1);
    assert_eq!(state.window_workspace(six), Some(1));
    assert!(state.get_workspace(0).unwrap().index_of_window(six).is_none());
    assert_eq!(state.get_workspace(0).unwrap().get_fullscreen_window(), None);
    assert!(!state.get_workspace(1).unwrap().is_window_mapped(six));
    assert_eq!(effects[0], Effect::Unmap(six));
    assert_eq!(effects[1], Effect::SetBorder { window: six, pixel: 1, width: 1 });
    assert!(effects.contains(&Effect::Focus(Window::new(7))));
    assert_eq!(count_configures(&effects), 9);
}

#[test]
fn go_to_workspace_unmaps_before_it_maps() {
    let mut state = make_state_with_windows(&[(0, 1, true), (0, 2, true), (1, 11, false)], 25);
    let effects = state.go_to_workspace(1);
    assert_eq!(
        effects[..3],
        [
            Effect::Unmap(Window::new(1)),
            Effect::Unmap(Window::new(2)),
            Effect::MapWindow(Window::new(11)),
        ]
    );
    assert!(!state.get_workspace(0).unwrap().is_window_mapped(Window::new(1)));
    assert!(state.get_workspace(1).unwrap().is_window_mapped(Window::new(11)));
}

#[test]
fn decrease_gap_at_zero_is_noop() {
    let mut state = make_state_with_windows(&[(0, 1, true)], 25);
    assert_eq!(state.window_gap(), 0);
    assert!(state.decrease_window_gap(5).is_empty());
    assert_eq!(state.window_gap(), 0);
    let _ = state.increase_window_gap(3);
    let effects = state.decrease_window_gap(7);
    assert_eq!(state.window_gap(), 0);
    assert_eq!(count_configures(&effects), 1);
}

#[test]
fn weight_never_falls_below_one() {
    let mut state = make_state_with_windows(&[(0, 1, true), (0, 2, true)], 25);
    let _ = state.set_focus(Window::new(1));
    let _ = state.decrease_window_weight(5);
    let _ = state.decrease_window_weight(u32::MAX);
    let client = state.current_workspace().get_client(Window::new(1)).unwrap();
    assert_eq!(client.size(), 1);
    let _ = state.increase_window_weight(u32::MAX);
    let _ = state.increase_window_weight(7);
    let client = state.current_workspace().get_client(Window::new(1)).unwrap();
    assert_eq!(client.size(), u32::MAX);
}

#[test]
fn dock_strip_is_at_the_bottom() {
    let mut state = make_state_with_windows(&[(0, 1, true)], 25);
    let dock = Window::new(50);
    let effects = state.on_map_request(dock, WindowType::Dock);
    assert_eq!(
        effects,
        vec![
            Effect::MapWindow(dock),
            Effect::ConfigurePositionSize { window: dock, x: 0, y: 575, w: 800, h: 25 },
            Effect::Configure { window: Window::new(1), x: 0, y: 0, w: 798, h: 573, border: 1 },
        ]
    );
    let again = state.on_map_request(dock, WindowType::Dock);
    assert_eq!(again.len(), 3);
    assert_eq!(state.dock_windows(), vec![dock]);
}

fn assert_invariants(state: &State, ids: &[u32]) {
    for workspace_id in 0..NUM_WORKSPACES {
        let ws = state.get_workspace(workspace_id).unwrap();
        let windows = ws.iter_windows();
        match ws.get_focused_window() {
            Some(focused) => assert!(windows.contains(&focused)),
            None => assert!(windows.is_empty()),
        }
        if let Some(fullscreen) = ws.get_fullscreen_window() {
            assert!(windows.contains(&fullscreen));
            assert_eq!(ws.get_focused_window(), Some(fullscreen));
        }
        for client in ws.iter_clients() {
            assert!(client.size() >= 1);
            assert_eq!(state.window_workspace(client.window()), Some(workspace_id));
            assert!(!state.dock_windows().contains(&client.window()));
        }
    }
    for dock in state.dock_windows() {
        assert_eq!(state.window_workspace(dock), None);
    }
    assert!(state.get_workspace(NUM_WORKSPACES).is_none());
    assert!(state.current_workspace_id() < NUM_WORKSPACES);
    for id in ids {
        let window = Window::new(*id);
        let homes = (0..NUM_WORKSPACES)
            .filter(|i| state.get_workspace(*i).unwrap().index_of_window(window).is_some())
            .count();
        match state.window_workspace(window) {
            Some(workspace_id) => {
                let ws = state.get_workspace(workspace_id).unwrap();
                assert!(ws.index_of_window(window).is_some());
                assert_eq!(homes, 1);
            }
            None => assert_eq!(homes, 0),
        }
    }
}

#[test]
fn invariants_hold_through_a_run_of_events() {
    let ids: Vec<u32> = (1..=8).collect();
    let mut state = make_state_with_windows(&[], 25);
    assert_invariants(&state, &ids);
    for id in 1..=4 {
        let _ = state.on_map_request(Window::new(id), WindowType::Managed);
        assert_invariants(&state, &ids);
    }
    let _ = state.on_map_request(Window::new(5), WindowType::Dock);
    let _ = state.toggle_fullscreen();
    assert_invariants(&state, &ids);
    let _ = state.on_unmap(Window::new(4));
    assert_invariants(&state, &ids);
    let _ = state.send_to_workspace(3);
    assert_invariants(&state, &ids);
    let _ = state.go_to_workspace(3);
    assert_invariants(&state, &ids);
    let _ = state.toggle_fullscreen();
    let _ = state.on_map_request(Window::new(6), WindowType::Managed);
    let _ = state.on_map_request(Window::new(1), WindowType::Managed);
    assert_invariants(&state, &ids);
    let _ = state.on_destroy(Window::new(4));
    let _ = state.on_destroy(Window::new(1));
    let _ = state.on_destroy(Window::new(5));
    let _ = state.on_destroy(Window::new(77));
    assert_invariants(&state, &ids);
    let _ = state.on_map_request(Window::new(2), WindowType::Dock);
    assert_invariants(&state, &ids);
    let _ = state.on_map_request(Window::new(3), WindowType::Managed);
    let _ = state.on_map_request(Window::new(2), WindowType::Managed);
    assert_invariants(&state, &ids);
    state.track_startup_managed(Window::new(3), 7);
    state.track_startup_dock(Window::new(6));
    assert_invariants(&state, &ids);
    let _ = state.swap_window(1);
    let _ = state.shift_focus(-1);
    let _ = state.decrease_window_weight(9);
    let _ = state.focus_window(Window::new(2), None);
    let shown = state.current_workspace_id();
    let _ = state.startup_finalize(Some(14));
    assert_invariants(&state, &ids);
    assert_eq!(state.current_workspace_id(), shown);
    let _ = state.apply_action(rdwm::key_mapping::ActionEvent::CycleLayout);
    let _ = state.apply_action(rdwm::key_mapping::ActionEvent::Kill);
    assert_invariants(&state, &ids);
}

#[test]
fn cycle_layout_changes_the_tiles() {
    let mut state = make_state_with_windows(&[(0, 1, true), (0, 2, true), (0, 3, true)], 25);
    let horizontal = state.configure_windows(0);
    assert_eq!(
        horizontal[2],
        Effect::Configure { window: Window::new(3), x: 532, y: 0, w: 264, h: 598, border: 1 }
    );
    let master = state.apply_action(rdwm::key_mapping::ActionEvent::CycleLayout);
    assert_eq!(
        master,
        vec![
            Effect::Configure { window: Window::new(1), x: 0, y: 0, w: 398, h: 598, border: 1 },
            Effect::Configure { window: Window::new(2), x: 400, y: 0, w: 398, h: 298, border: 1 },
            Effect::Configure { window: Window::new(3), x: 400, y: 300, w: 398, h: 298, border: 1 },
        ]
    );
    let back = state.apply_action(rdwm::key_mapping::ActionEvent::CycleLayout);
    assert_eq!(back, horizontal);
}

#[test]
fn destroy_of_a_dock_reconfigures_the_rest() {
    let mut state = make_state_with_windows(&[(0, 1, true)], 25);
    let _ = state.on_map_request(Window::new(50), WindowType::Dock);
    let _ = state.on_map_request(Window::new(51), WindowType::Dock);
    let effects = state.on_destroy(Window::new(50));
    assert_eq!(
        effects,
        vec![
            Effect::ConfigurePositionSize { window: Window::new(51), x: 0, y: 575, w: 800, h: 25 },
            Effect::Configure { window: Window::new(1), x: 0, y: 0, w: 798, h: 573, border: 1 },
        ]
    );
    assert_eq!(state.usable_screen_height(), 575);
    let tall = State::new(
        ScreenConfig { width: 8, height: 10, focused_border_pixel: 0, normal_border_pixel: 1 },
        0,
        0,
        25,
    );
    assert_eq!(tall.usable_screen_height(), 10);
    let mut short = tall;
    short.track_startup_dock(Window::new(9));
    assert_eq!(short.usable_screen_height(), 0);
    assert_eq!(
        short.configure_dock_windows(),
        vec![Effect::ConfigurePositionSize { window: Window::new(9), x: 0, y: -15, w: 8, h: 25 }]
    );
}

#[test]
fn startup_finalize_without_a_workspace_to_show_only_places_the_docks() {
    let mut state = make_state_with_windows(&[(0, 1, true), (1, 11, false)], 25);
    state.track_startup_dock(Window::new(70));
    let docks =
        vec![Effect::ConfigurePositionSize { window: Window::new(70), x: 0, y: 575, w: 800, h: 25 }];
    assert_eq!(state.startup_finalize(None), docks);
    assert_eq!(state.current_workspace_id(), 0);
    assert_eq!(state.startup_finalize(Some(NUM_WORKSPACES)), docks);
    assert_eq!(state.startup_finalize(Some(usize::MAX)), docks);
    assert_eq!(state.current_workspace_id(), 0);
    assert!(state.get_workspace(0).unwrap().is_window_mapped(Window::new(1)));
    assert!(!state.get_workspace(1).unwrap().is_window_mapped(Window::new(11)));

    let mut bare = make_state_with_windows(&[(0, 1, true)], 25);
    assert!(bare.startup_finalize(Some(12)).is_empty());
    assert_eq!(bare.current_workspace_id(), 0);
}

#[test]
fn startup_finalize_shows_the_workspace_even_if_it_is_current() {
    let mut state = make_state_with_windows(&[(0, 1, true), (0, 2, false), (1, 11, true)], 25);
    state.track_startup_dock(Window::new(70));
    let effects = state.startup_finalize(Some(0));
    assert_eq!(state.current_workspace_id(), 0);
    assert_eq!(
        effects,
        vec![
            Effect::ConfigurePositionSize { window: Window::new(70), x: 0, y: 575, w: 800, h: 25 },
            Effect::MapWindow(Window::new(1)),
            Effect::MapWindow(Window::new(2)),
            Effect::Configure { window: Window::new(1), x: 0, y: 0, w: 398, h: 573, border: 1 },
            Effect::Configure { window: Window::new(2), x: 400, y: 0, w: 398, h: 573, border: 1 },
            Effect::SetBorder { window: Window::new(1), pixel: 1, width: 1 },
            Effect::SetBorder { window: Window::new(1), pixel: 0, width: 1 },
            Effect::Focus(Window::new(1)),
        ]
    );
    assert!(state.get_workspace(0).unwrap().is_window_mapped(Window::new(2)));
    assert!(state.get_workspace(1).unwrap().is_window_mapped(Window::new(11)));

    let switched = state.startup_finalize(Some(1));
    assert_eq!(state.current_workspace_id(), 1);
    assert_eq!(
        switched[..4],
        [
            Effect::ConfigurePositionSize { window: Window::new(70), x: 0, y: 575, w: 800, h: 25 },
            Effect::Unmap(Window::new(1)),
            Effect::Unmap(Window::new(2)),
            Effect::MapWindow(Window::new(11)),
        ]
    );
}

#[test]
fn show_workspace_rebuilds_the_workspace_on_screen() {
    let mut state = make_state_with_windows(&[(0, 1, true)], 25);
    assert!(state.go_to_workspace(0).is_empty());
    assert_eq!(
        state.show_workspace(0),
        vec![
            Effect::MapWindow(Window::new(1)),
            Effect::Configure { window: Window::new(1), x: 0, y: 0, w: 798, h: 598, border: 1 },
            Effect::SetBorder { window: Window::new(1), pixel: 1, width: 1 },
            Effect::SetBorder { window: Window::new(1), pixel: 0, width: 1 },
            Effect::Focus(Window::new(1)),
        ]
    );
    assert!(state.show_workspace(NUM_WORKSPACES).is_empty());
    assert_eq!(state.show_workspace(2), vec![Effect::Unmap(Window::new(1))]);
    assert_eq!(state.current_workspace_id(), 2);
}

#[test]
fn map_request_records_the_window_under_the_workspace_on_screen() {
    let mut state = make_state_with_windows(&[(0, 1, true), (3, 2, false)], 25);
    let _ = state.go_to_workspace(4);
    let _ = state.on_map_request(Window::new(9), WindowType::Managed);
    assert_eq!(state.window_workspace(Window::new(9)), Some(4));
    assert_eq!(state.current_workspace_id(), 4);
    assert!(state.current_workspace().is_window_mapped(Window::new(9)));
    let _ = state.on_unmap(Window::new(9));
    assert!(!state.current_workspace().is_window_mapped(Window::new(9)));
    let again = state.on_map_request(Window::new(9), WindowType::Managed);
    assert_eq!(state.window_workspace(Window::new(9)), Some(4));
    assert!(state.current_workspace().is_window_mapped(Window::new(9)));
    assert_eq!(state.current_workspace().num_of_windows(), 1);
    assert_eq!(again[0], Effect::MapWindow(Window::new(9)));
    let _ = state.on_map_request(Window::new(8), WindowType::Unmanaged);
    let _ = state.on_map_request(Window::new(7), WindowType::Dock);
    assert_eq!(state.window_workspace(Window::new(8)), None);
    assert_eq!(state.window_workspace(Window::new(7)), None);
    assert_eq!(state.current_workspace_id(), 4);
}

#[test]
fn refocusing_the_fullscreen_window_keeps_it_borderless() {
    let mut state = make_state(10);
    let six = Window::new(6);
    let _ = state.set_focus(six);
    let _ = state.toggle_fullscreen();
    assert_eq!(
        state.set_focus(six),
        vec![
            Effect::SetBorder { window: six, pixel: 1, width: 0 },
            Effect::SetBorder { window: six, pixel: 0, width: 0 },
            Effect::Focus(six),
            Effect::Raise(six),
        ]
    );
    assert!(state.set_focus(Window::new(5)).is_empty());
    assert!(state.shift_focus(1).is_empty());
    assert_eq!(state.focused_window(), Some(six));
    assert!(state.is_window_fullscreen(six));
}

#[test]
fn map_request_moves_a_window_that_is_managed_off_screen() {
    let mut state = make_state_with_windows(&[(0, 1, true), (1, 7, false), (1, 8, false)], 25);
    let seven = Window::new(7);
    let effects = state.on_map_request(seven, WindowType::Managed);
    assert_eq!(state.window_workspace(seven), Some(0));
    assert_eq!(state.get_workspace(1).unwrap().iter_windows(), vec![Window::new(8)]);
    assert_eq!(state.get_workspace(0).unwrap().iter_windows(), vec![Window::new(1), seven]);
    assert!(state.current_workspace().is_window_mapped(seven));
    assert_eq!(state.focused_window(), Some(seven));
    assert_eq!(
        effects,
        vec![
            Effect::MapWindow(seven),
            Effect::SetBorder { window: Window::new(1), pixel: 1, width: 1 },
            Effect::SetBorder { window: seven, pixel: 0, width: 1 },
            Effect::Focus(seven),
            Effect::Configure { window: Window::new(1), x: 0, y: 0, w: 398, h: 598, border: 1 },
            Effect::Configure { window: seven, x: 400, y: 0, w: 398, h: 598, border: 1 },
        ]
    );
    let _ = state.on_destroy(seven);
    assert_eq!(state.window_workspace(seven), None);
    for workspace_id in 0..NUM_WORKSPACES {
        assert!(state.get_workspace(workspace_id).unwrap().index_of_window(seven).is_none());
    }
}

#[test]
fn map_request_as_dock_ends_the_management_of_the_window() {
    let mut state = make_state_with_windows(&[(0, 1, true), (0, 7, true), (2, 9, false)], 25);
    let seven = Window::new(7);
    let effects = state.on_map_request(seven, WindowType::Dock);
    assert_eq!(state.dock_windows(), vec![seven]);
    assert_eq!(state.window_workspace(seven), None);
    assert_eq!(state.get_workspace(0).unwrap().iter_windows(), vec![Window::new(1)]);
    assert_eq!(state.managed_windows_sorted(), vec![Window::new(1), Window::new(9)]);
    assert_eq!(
        effects,
        vec![
            Effect::MapWindow(seven),
            Effect::ConfigurePositionSize { window: seven, x: 0, y: 575, w: 800, h: 25 },
            Effect::Configure { window: Window::new(1), x: 0, y: 0, w: 798, h: 573, border: 1 },
        ]
    );
    let nine = Window::new(9);
    let _ = state.on_map_request(nine, WindowType::Dock);
    assert_eq!(state.dock_windows(), vec![seven, nine]);
    assert_eq!(state.get_workspace(2).unwrap().num_of_windows(), 0);
    assert_eq!(state.client_list_windows(), vec![Window::new(1), seven, nine]);
}

#[test]
fn map_request_as_managed_ends_the_docking_of_the_window() {
    let mut state = make_state_with_windows(&[(0, 1, true)], 25);
    let dock = Window::new(70);
    let _ = state.on_map_request(dock, WindowType::Dock);
    let _ = state.on_map_request(Window::new(71), WindowType::Dock);
    let _ = state.on_map_request(dock, WindowType::Managed);
    assert_eq!(state.dock_windows(), vec![Window::new(71)]);
    assert_eq!(state.window_workspace(dock), Some(0));
    assert!(state.current_workspace().is_window_mapped(dock));
    let _ = state.on_map_request(Window::new(71), WindowType::Managed);
    assert!(state.dock_windows().is_empty());
    assert_eq!(state.usable_screen_height(), 600);
    assert_eq!(
        state.client_list_windows(),
        vec![Window::new(1), Window::new(70), Window::new(71)]
    );
}

#[test]
fn startup_tracks_a_window_under_one_heading() {
    let mut state = make_state_with_windows(&[], 25);
    let seven = Window::new(7);
    state.track_startup_managed(seven, 1);
    state.track_startup_managed(seven, 2);
    assert_eq!(state.window_workspace(seven), Some(2));
    assert_eq!(state.get_workspace(1).unwrap().num_of_windows(), 0);
    assert_eq!(state.get_workspace(2).unwrap().iter_windows(), vec![seven]);
    state.track_startup_managed(seven, NUM_WORKSPACES);
    assert_eq!(state.window_workspace(seven), Some(2));
    state.track_startup_dock(seven);
    assert_eq!(state.window_workspace(seven), None);
    assert_eq!(state.get_workspace(2).unwrap().num_of_windows(), 0);
    assert_eq!(state.dock_windows(), vec![seven]);
    state.track_startup_dock(seven);
    assert_eq!(state.dock_windows(), vec![seven]);
    state.track_startup_managed(seven, 3);
    assert!(state.dock_windows().is_empty());
    assert_eq!(state.window_workspace(seven), Some(3));
}
