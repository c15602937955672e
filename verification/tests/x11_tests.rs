use rdwm::atoms::{Atoms, NUM_ATOMS};
use rdwm::effect::{Atom, Effect, Window};
use rdwm::x11::{
    classify_window, close_window_effect, requests_for, requests_for_all, supports_wm_delete,
    ConfigValue, GrabMode, PropertyData, Request, RevertTo, WindowType, ROOT_EVENT_MASK,
};

fn atoms() -> Atoms {
    let ids: Vec<Atom> = (0..NUM_ATOMS as u32).map(|i| Atom::new(100 + i)).collect();
    Atoms::from_interned(&ids).unwrap()
}

#[test]
fn root_event_mask_selects_redirect_notify_and_keys() {
    assert_eq!(ROOT_EVENT_MASK, (1 << 20) | (1 << 19) | 1);
}

#[test]
fn window_effects_become_requests() {
    let a = atoms();
    let w = Window::new(9);
    assert_eq!(requests_for(&Effect::MapWindow(w), &a), vec![Request::MapWindow { window: w }]);
    assert_eq!(requests_for(&Effect::Unmap(w), &a), vec![Request::UnmapWindow { window: w }]);
    assert_eq!(
        requests_for(&Effect::Focus(w), &a),
        vec![Request::SetInputFocus { revert_to: RevertTo::PointerRoot, focus: w, time: 0 }]
    );
    assert_eq!(
        requests_for(&Effect::Raise(w), &a),
        vec![Request::ConfigureWindow { window: w, values: vec![ConfigValue::StackAbove] }]
    );
    assert_eq!(
        requests_for(&Effect::Configure { window: w, x: 1, y: 2, w: 3, h: 4, border: 5 }, &a),
        vec![Request::ConfigureWindow {
            window: w,
            values: vec![
                ConfigValue::X(1),
                ConfigValue::Y(2),
                ConfigValue::Width(3),
                ConfigValue::Height(4),
                ConfigValue::BorderWidth(5),
            ]
        }]
    );
    assert_eq!(
        requests_for(&Effect::ConfigurePositionSize { window: w, x: 1, y: 2, w: 3, h: 4 }, &a),
        vec![Request::ConfigureWindow {
            window: w,
            values: vec![
                ConfigValue::X(1),
                ConfigValue::Y(2),
                ConfigValue::Width(3),
                ConfigValue::Height(4),
            ]
        }]
    );
    assert_eq!(
        requests_for(&Effect::SetBorder { window: w, pixel: 7, width: 3 }, &a),
        vec![
            Request::ChangeBorderPixel { window: w, pixel: 7 },
            Request::ConfigureWindow { window: w, values: vec![ConfigValue::BorderWidth(3)] },
        ]
    );
    assert_eq!(
        requests_for(&Effect::KillClient(w), &a),
        vec![Request::KillClient { resource: 9 }]
    );
    assert_eq!(
        requests_for(&Effect::SendWmDelete(w), &a),
        vec![Request::SendClientMessage {
            propagate: false,
            destination: w,
            event_mask: 0,
            message_type: a.wm_protocols,
            data: [a.wm_delete_window.resource_id(), 0, 0, 0, 0],
        }]
    );
    assert_eq!(
        requests_for(&Effect::GrabKey { keycode: 24, modifiers: 64, grab_window: w }, &a),
        vec![Request::GrabKey {
            owner_events: false,
            grab_window: w,
            modifiers: 64,
            key: 24,
            pointer_mode: GrabMode::Async,
            keyboard_mode: GrabMode::Async,
        }]
    );
}

#[test]
fn property_effects_replace_with_the_right_type() {
    let a = atoms();
    let w = Window::new(9);
    let p = Atom::new(55);
    let replace = |property_type: u32, data: PropertyData| Request::ReplaceProperty {
        window: w,
        property: p,
        property_type: Atom::new(property_type),
        data,
    };
    assert_eq!(
        requests_for(&Effect::SetCardinal32 { window: w, atom: p, value: 8 }, &a),
        vec![replace(6, PropertyData::Words(vec![8]))]
    );
    assert_eq!(
        requests_for(&Effect::SetCardinal32List { window: w, atom: p, values: vec![1, 2] }, &a),
        vec![replace(6, PropertyData::Words(vec![1, 2]))]
    );
    assert_eq!(
        requests_for(&Effect::SetAtomList { window: w, atom: p, values: vec![3] }, &a),
        vec![replace(4, PropertyData::Words(vec![3]))]
    );
    assert_eq!(
        requests_for(&Effect::SetWindowProperty { window: w, atom: p, values: vec![] }, &a),
        vec![replace(33, PropertyData::Words(vec![]))]
    );
    assert_eq!(
        requests_for(&Effect::SetUtf8String { window: w, atom: p, value: "rdwm".to_string() }, &a),
        vec![replace(114, PropertyData::Text("rdwm".to_string()))]
    );
}

#[test]
fn requests_keep_the_order_of_the_effects() {
    let a = atoms();
    let w = Window::new(9);
    let effects = vec![
        Effect::SetBorder { window: w, pixel: 7, width: 3 },
        Effect::Focus(w),
    ];
    assert_eq!(
        requests_for_all(&effects, &a),
        vec![
            Request::ChangeBorderPixel { window: w, pixel: 7 },
            Request::ConfigureWindow { window: w, values: vec![ConfigValue::BorderWidth(3)] },
            Request::SetInputFocus { revert_to: RevertTo::PointerRoot, focus: w, time: 0 },
        ]
    );
    assert_eq!(requests_for_all(&[], &a), vec![]);
}

#[test]
fn windows_are_classified_by_their_type_property() {
    let a = atoms();
    assert_eq!(classify_window(&[], &a), WindowType::Managed);
    assert_eq!(classify_window(&[Atom::new(5)], &a), WindowType::Managed);
    assert_eq!(
        classify_window(&[Atom::new(5), a.wm_window_type_dock], &a),
        WindowType::Dock
    );
}

#[test]
fn closing_is_polite_only_if_the_window_takes_part() {
    let a = atoms();
    let w = Window::new(9);
    assert!(supports_wm_delete(&[Atom::new(3), a.wm_delete_window], &a));
    assert!(!supports_wm_delete(&[Atom::new(3)], &a));
    assert_eq!(close_window_effect(w, Some(true)), Effect::SendWmDelete(w));
    assert_eq!(close_window_effect(w, Some(false)), Effect::KillClient(w));
    assert_eq!(close_window_effect(w, None), Effect::KillClient(w));
}
