use rdwm::effect::{Effect, Window};
use rdwm::key_mapping::{ActionEvent, ActionMapping};
use rdwm::keyboard::{
    combine_modifiers, find_keycode, key_modifiers, populate_key_bindings, resolve_key,
    set_keygrabs, KeyBindings,
};

const SUPER: u32 = 64;
const SHIFT: u32 = 1;

static MODS_SUPER: [u32; 1] = [SUPER];
static MODS_SUPER_SHIFT: [u32; 2] = [SUPER, SHIFT];
static MODS_NONE: [u32; 0] = [];

fn keysyms() -> Vec<u32> {
    // Two symbols for each key code, from key code 8 on.
    vec![0x61, 0x41, 0x62, 0x42, 0xff0d, 0, 0x61, 0x71]
}

fn is_action(action: Option<ActionEvent>, expected: &str) -> bool {
    match action {
        Some(a) => format!("{:?}", a) == expected,
        None => expected == "None",
    }
}

#[test]
fn combine_modifiers_ors_the_masks() {
    assert_eq!(combine_modifiers(&[]), 0);
    assert_eq!(combine_modifiers(&[SUPER]), 64);
    assert_eq!(combine_modifiers(&[SUPER, SHIFT, SUPER]), 65);
}

#[test]
fn find_keycode_takes_the_first_column() {
    let syms = keysyms();
    assert_eq!(find_keycode(8, &syms, 2, 0x61), Some(8));
    assert_eq!(find_keycode(8, &syms, 2, 0x42), Some(9));
    assert_eq!(find_keycode(8, &syms, 2, 0xff0d), Some(10));
    assert_eq!(find_keycode(8, &syms, 2, 0x71), Some(11));
    assert_eq!(find_keycode(8, &syms, 2, 0x99), None);
    assert_eq!(find_keycode(8, &syms, 0, 0x61), None);
    assert_eq!(find_keycode(8, &syms, 3, 0x71), Some(10));
    assert_eq!(find_keycode(253, &syms, 2, 0xff0d), Some(255));
    assert_eq!(find_keycode(253, &syms, 2, 0x71), None);
    assert_eq!(find_keycode(8, &[], 2, 0x61), None);
}

#[test]
fn populate_key_bindings_resolves_the_table() {
    let mappings = [
        ActionMapping { key: 0xff0d, modifiers: &MODS_SUPER, action: ActionEvent::Spawn("st") },
        ActionMapping { key: 0x71, modifiers: &MODS_SUPER, action: ActionEvent::Kill },
        ActionMapping { key: 0x99, modifiers: &MODS_SUPER, action: ActionEvent::CycleLayout },
        ActionMapping {
            key: 0xff0d,
            modifiers: &MODS_SUPER_SHIFT,
            action: ActionEvent::GoToWorkspace(3),
        },
        ActionMapping { key: 0x61, modifiers: &MODS_NONE, action: ActionEvent::NextWindow },
        ActionMapping { key: 0xff0d, modifiers: &MODS_SUPER, action: ActionEvent::PrevWindow },
    ];
    let bindings = populate_key_bindings(8, &keysyms(), 2, &mappings);
    assert_eq!(bindings.len(), 4);
    assert!(is_action(bindings.get(10, 64), "PrevWindow"));
    assert!(is_action(bindings.get(11, 64), "Kill"));
    assert!(is_action(bindings.get(10, 65), "GoToWorkspace(3)"));
    assert!(is_action(bindings.get(8, 0), "NextWindow"));
    assert!(is_action(bindings.get(8, 64), "None"));
    assert!(is_action(bindings.get(9, 0), "None"));

    let mut grabbed: Vec<(u8, u32)> = set_keygrabs(&bindings, Window::new(1))
        .iter()
        .map(|effect| match effect {
            Effect::GrabKey { keycode, modifiers, grab_window } => {
                assert_eq!(*grab_window, Window::new(1));
                (*keycode, *modifiers)
            }
            other => panic!("no grab: {:?}", other),
        })
        .collect();
    grabbed.sort();
    assert_eq!(grabbed, vec![(8, 0), (10, 64), (10, 65), (11, 64)]);

    let none = populate_key_bindings(8, &[], 0, &mappings);
    assert_eq!(none.len(), 0);
}

#[test]
fn resolve_key_ignores_buttons() {
    let mut bindings = KeyBindings::new();
    bindings.insert(24, 64, ActionEvent::Kill);
    bindings.insert(24, 64, ActionEvent::ToggleFullscreen);
    assert_eq!(bindings.len(), 1);
    bindings.insert(0, 24, ActionEvent::Kill);
    bindings.insert(255, u32::MAX, ActionEvent::CycleLayout);
    assert!(is_action(bindings.get(0, 24), "Kill"));
    assert!(is_action(bindings.get(24, 0), "None"));
    assert!(is_action(bindings.get(255, u32::MAX), "CycleLayout"));
    assert!(is_action(bindings.get(254, u32::MAX), "None"));
    assert_eq!(set_keygrabs(&bindings, Window::new(1)).len(), 3);
    assert_eq!(key_modifiers(0x140), 0x40);
    assert_eq!(key_modifiers(0xffff_ffff), 0x80ff);
    assert!(is_action(resolve_key(&bindings, 24, 0x140), "ToggleFullscreen"));
    assert!(is_action(resolve_key(&bindings, 24, 0x141), "None"));
    assert!(is_action(resolve_key(&bindings, 25, 0x40), "None"));
}
