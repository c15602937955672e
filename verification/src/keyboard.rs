//! From key symbols to key codes: the table of key bindings as the server's
//! keyboard mapping resolves it, and the grabs that go with it.

use crate::effect::{effect_views, Effect, EffectView, Window};
use crate::key_mapping::{ActionEvent, ActionMapping};
use std::collections::HashMap;
use vstd::prelude::*;
use vstd::std_specs::iter::IteratorSpec;

verus! {

/// Every bit that stands for a modifier key, and the bit for any modifier.
pub const MOD_MASK_ALL: u32 = 0x80ff;

/// The masks of a list combined into one.
pub open spec fn combined(masks: Seq<u32>) -> u32
    decreases masks.len(),
{
    if masks.len() == 0 {
        0
    } else {
        combined(masks.drop_last()) | masks.last()
    }
}

/// `k` is the first position at which `keysym` stands in `keysyms`.
pub open spec fn is_first_occurrence(keysyms: Seq<u32>, keysym: u32, k: int) -> bool {
    &&& 0 <= k < keysyms.len()
    &&& keysyms[k] == keysym
    &&& forall|j: int| 0 <= j < k ==> keysyms[j] != keysym
}

/// The key code for a key symbol. The keyboard mapping lists
/// `keysyms_per_keycode` symbols for each key code from `min_keycode` on; the
/// first key code that has the symbol in its list is the one. There is none
/// if no list has the symbol, or if that key code would not fit in a byte.
pub open spec fn keycode_of(
    min_keycode: u8,
    keysyms: Seq<u32>,
    keysyms_per_keycode: usize,
    keysym: u32,
) -> Option<u8> {
    if keysyms_per_keycode > 0 && exists|k: int| is_first_occurrence(keysyms, keysym, k) {
        let k = choose|k: int| is_first_occurrence(keysyms, keysym, k);
        if min_keycode + k / (keysyms_per_keycode as int) <= u8::MAX {
            Some((min_keycode + k / (keysyms_per_keycode as int)) as u8)
        } else {
            None
        }
    } else {
        None
    }
}

/// The list of key code `min_keycode + column` has `keysym`.
pub open spec fn column_has(
    keysyms: Seq<u32>,
    keysyms_per_keycode: usize,
    column: int,
    keysym: u32,
) -> bool {
    exists|k: int|
        column * keysyms_per_keycode <= k < (column + 1) * keysyms_per_keycode && 0 <= k
            < keysyms.len() && #[trigger] keysyms[k] == keysym
}

/// The key code of a key symbol is the first whose list has the symbol: its
/// list has it, and the list of no key code before it does.
pub proof fn lemma_keycode_is_first(
    min_keycode: u8,
    keysyms: Seq<u32>,
    keysyms_per_keycode: usize,
    keysym: u32,
)
    ensures
        keycode_of(min_keycode, keysyms, keysyms_per_keycode, keysym) matches Some(keycode) ==> {
            &&& keycode >= min_keycode
            &&& column_has(keysyms, keysyms_per_keycode, keycode - min_keycode, keysym)
            &&& forall|column: int|
                0 <= column < keycode - min_keycode ==> !column_has(
                    keysyms,
                    keysyms_per_keycode,
                    column,
                    keysym,
                )
        },
{
    if let Some(keycode) = keycode_of(min_keycode, keysyms, keysyms_per_keycode, keysym) {
        let per = keysyms_per_keycode as int;
        let first = choose|k: int| is_first_occurrence(keysyms, keysym, k);
        let c = first / per;
        assert(c * per <= first < (c + 1) * per) by (nonlinear_arith)
            requires
                c == first / per,
                per > 0,
                first >= 0,
        ;
        assert(0 <= c) by (nonlinear_arith)
            requires
                c == first / per,
                per > 0,
                first >= 0,
        ;
        assert(keysyms[first] == keysym);
        assert forall|column: int| 0 <= column < c implies !column_has(
            keysyms,
            keysyms_per_keycode,
            column,
            keysym,
        ) by {
            assert((column + 1) * per <= c * per) by (nonlinear_arith)
                requires
                    column + 1 <= c,
                    per > 0,
            ;
        }
    }
}

/// What one unit of key code counts for in a key.
pub const KEYCODE_UNIT: u64 = 0x1_0000_0000;

/// The key under which a key code with modifiers is bound: both in one
/// number, the key code above the 32 bits of the modifiers.
pub open spec fn key_of(keycode: u8, modifiers: u32) -> u64 {
    (keycode * 0x1_0000_0000 + modifiers) as u64
}

/// The key code in a key.
pub open spec fn keycode_in(key: u64) -> u8 {
    (key / 0x1_0000_0000) as u8
}

/// The modifiers in a key.
pub open spec fn modifiers_in(key: u64) -> u32 {
    (key % 0x1_0000_0000) as u32
}

/// Every key of the bindings holds a key code and modifiers.
pub open spec fn well_keyed(bindings: Map<u64, ActionEvent>) -> bool {
    &&& bindings.dom().finite()
    &&& forall|key: u64| #[trigger] bindings.contains_key(key) ==> key / 0x1_0000_0000 <= u8::MAX
}

/// A key holds the key code and the modifiers that it was made of, and keys
/// made of different ones differ.
pub proof fn lemma_key_round_trip(keycode: u8, modifiers: u32)
    ensures
        keycode_in(key_of(keycode, modifiers)) == keycode,
        modifiers_in(key_of(keycode, modifiers)) == modifiers,
        key_of(keycode, modifiers) / 0x1_0000_0000 <= u8::MAX,
        forall|other_code: u8, other_modifiers: u32|
            #[trigger] key_of(other_code, other_modifiers) == key_of(keycode, modifiers)
                ==> other_code == keycode && other_modifiers == modifiers,
{
}

/// A key that holds a key code is the key of the key code and the modifiers
/// in it.
pub proof fn lemma_key_of_parts(key: u64)
    requires
        key / 0x1_0000_0000 <= u8::MAX,
    ensures
        key_of(keycode_in(key), modifiers_in(key)) == key,
{
}

/// The bindings that a table of mappings resolves to: each mapping whose key
/// symbol has a key code binds that key code, with its modifiers combined, to
/// its action; a later mapping for the same key code and modifiers takes the
/// place of an earlier one.
pub open spec fn resolved(
    min_keycode: u8,
    keysyms: Seq<u32>,
    keysyms_per_keycode: usize,
    mappings: Seq<ActionMapping>,
) -> Map<u64, ActionEvent>
    decreases mappings.len(),
{
    if mappings.len() == 0 {
        Map::empty()
    } else {
        let earlier = resolved(min_keycode, keysyms, keysyms_per_keycode, mappings.drop_last());
        let mapping = mappings.last();
        match keycode_of(min_keycode, keysyms, keysyms_per_keycode, mapping.key) {
            Some(keycode) => earlier.insert(
                key_of(keycode, combined(mapping.modifiers@)),
                mapping.action,
            ),
            None => earlier,
        }
    }
}

/// The action bound to a key code with modifiers, if any.
pub open spec fn lookup(bindings: Map<u64, ActionEvent>, keycode: u8, modifiers: u32) -> Option<
    ActionEvent,
> {
    if bindings.contains_key(key_of(keycode, modifiers)) {
        Some(bindings[key_of(keycode, modifiers)])
    } else {
        None
    }
}

/// The effect that grabs the key code and modifiers of `key` on `root`.
pub open spec fn grab_of(key: u64, root: Window) -> EffectView {
    EffectView::GrabKey {
        keycode: keycode_in(key),
        modifiers: modifiers_in(key),
        grab_window: root,
    }
}

/// One grab on `root` for each of `keys`, in their order.
pub open spec fn grabs_of(keys: Seq<u64>, root: Window) -> Seq<EffectView> {
    keys.map_values(|key: u64| grab_of(key, root))
}

/// `effects` grabs every bound key on `root` once, in some order: they are
/// the grabs of a list that holds each key of the bindings once.
pub open spec fn grabs_each(effects: Seq<EffectView>, bindings: Map<u64, ActionEvent>, root: Window)
    -> bool {
    exists|keys: Seq<u64>|
        keys.no_duplicates() && keys.to_set() == bindings.dom() && effects == #[trigger] grabs_of(
            keys,
            root,
        )
}

/// Effects that grab every bound key are as many as there are bindings, and
/// each of them grabs a key code with modifiers that has a binding.
pub proof fn lemma_grabs_are_bound(
    effects: Seq<EffectView>,
    bindings: Map<u64, ActionEvent>,
    root: Window,
    i: int,
)
    requires
        well_keyed(bindings),
        grabs_each(effects, bindings, root),
        0 <= i < effects.len(),
    ensures
        effects.len() == bindings.dom().len(),
        effects[i] matches EffectView::GrabKey { keycode, modifiers, grab_window } && grab_window
            == root && lookup(bindings, keycode, modifiers) is Some,
{
    let keys = choose|keys: Seq<u64>|
        keys.no_duplicates() && keys.to_set() == bindings.dom() && effects == #[trigger] grabs_of(
            keys,
            root,
        );
    keys.unique_seq_to_set();
    assert(keys.to_set().contains(keys[i]));
    lemma_key_of_parts(keys[i]);
}

/// The modifiers of a key press: the state of the keyboard and the pointer
/// buttons, less all that is no modifier.
pub open spec fn modifiers_of(state: u32) -> u32 {
    state & MOD_MASK_ALL
}

/// The key bindings: at most one action for a key code with modifiers. They
/// are kept in a hash map under the key of key code and modifiers.
#[derive(Debug, Clone)]
pub struct KeyBindings {
    map: HashMap<u64, ActionEvent>,
}

impl View for KeyBindings {
    type V = Map<u64, ActionEvent>;

    closed spec fn view(&self) -> Map<u64, ActionEvent> {
        self.map@
    }
}

impl KeyBindings {
    /// Every key holds a key code and modifiers.
    pub open spec fn wf(&self) -> bool {
        well_keyed(self@)
    }

    /// No bindings.
    pub fn new() -> (bindings: KeyBindings)
        ensures
            bindings@ == Map::<u64, ActionEvent>::empty(),
            bindings.wf(),
    {
        KeyBindings { map: HashMap::new() }
    }

    /// Binds a key code with modifiers to an action, in the place of what was
    /// bound to them before.
    pub fn insert(&mut self, keycode: u8, modifiers: u32, action: ActionEvent)
        requires
            old(self).wf(),
        ensures
            final(self).wf(),
            final(self)@ == old(self)@.insert(key_of(keycode, modifiers), action),
    {
        proof {
            lemma_key_round_trip(keycode, modifiers);
        }
        self.map.insert(pack(keycode, modifiers), action);
    }

    /// The action bound to a key code with modifiers.
    pub fn get(&self, keycode: u8, modifiers: u32) -> (action: Option<ActionEvent>)
        ensures
            action == lookup(self@, keycode, modifiers),
    {
        match self.map.get(&pack(keycode, modifiers)) {
            Some(action) => Some(*action),
            None => None,
        }
    }

    /// The number of bindings.
    pub fn len(&self) -> (len: usize)
        ensures
            len == self@.dom().len(),
    {
        self.map.len()
    }
}

/// The key of a key code with modifiers.
fn pack(keycode: u8, modifiers: u32) -> (key: u64)
    ensures
        key == key_of(keycode, modifiers),
{
    (keycode as u64) * KEYCODE_UNIT + (modifiers as u64)
}

/// The masks of a list combined into one.
pub fn combine_modifiers(masks: &[u32]) -> (mask: u32)
    ensures
        mask == combined(masks@),
{
    let mut mask: u32 = 0;
    let mut i: usize = 0;
    assert(masks@.take(0) =~= Seq::empty());
    while i < masks.len()
        invariant
            i <= masks@.len(),
            mask == combined(masks@.take(i as int)),
        decreases masks@.len() - i,
    {
        assert(masks@.take(i + 1).drop_last() =~= masks@.take(i as int));
        mask = mask | masks[i];
        i = i + 1;
    }
    assert(masks@.take(masks@.len() as int) =~= masks@);
    mask
}

/// The key code for a key symbol: the first key code whose list in the
/// keyboard mapping has the symbol.
pub fn find_keycode(min_keycode: u8, keysyms: &[u32], keysyms_per_keycode: usize, keysym: u32)
    -> (keycode: Option<u8>)
    ensures
        keycode == keycode_of(min_keycode, keysyms@, keysyms_per_keycode, keysym),
{
    if keysyms_per_keycode == 0 {
        return None;
    }
    let mut k: usize = 0;
    while k < keysyms.len()
        invariant
            k <= keysyms@.len(),
            keysyms_per_keycode > 0,
            forall|j: int| 0 <= j < k ==> keysyms@[j] != keysym,
        decreases keysyms@.len() - k,
    {
        if keysyms[k] == keysym {
            proof {
                assert(is_first_occurrence(keysyms@, keysym, k as int));
                let c = choose|c: int| is_first_occurrence(keysyms@, keysym, c);
                assert(c == k);
            }
            let column = k / keysyms_per_keycode;
            if column <= (u8::MAX - min_keycode) as usize {
                return Some(min_keycode + column as u8);
            }
            return None;
        }
        k = k + 1;
    }
    None
}

/// Resolves the table of mappings against the server's keyboard mapping:
/// `keysyms` lists `keysyms_per_keycode` key symbols for each key code from
/// `min_keycode` on.
pub fn populate_key_bindings(
    min_keycode: u8,
    keysyms: &[u32],
    keysyms_per_keycode: usize,
    mappings: &[ActionMapping],
) -> (bindings: KeyBindings)
    ensures
        bindings@ == resolved(min_keycode, keysyms@, keysyms_per_keycode, mappings@),
        bindings.wf(),
{
    let mut bindings = KeyBindings::new();
    let mut i: usize = 0;
    assert(mappings@.take(0) =~= Seq::empty());
    while i < mappings.len()
        invariant
            i <= mappings@.len(),
            bindings.wf(),
            bindings@ == resolved(
                min_keycode,
                keysyms@,
                keysyms_per_keycode,
                mappings@.take(i as int),
            ),
        decreases mappings@.len() - i,
    {
        assert(mappings@.take(i + 1).drop_last() =~= mappings@.take(i as int));
        let mapping = &mappings[i];
        let modifiers = combine_modifiers(mapping.modifiers);
        if let Some(keycode) = find_keycode(
            min_keycode,
            keysyms,
            keysyms_per_keycode,
            mapping.key,
        ) {
            bindings.insert(keycode, modifiers, mapping.action);
        }
        i = i + 1;
    }
    assert(mappings@.take(mappings@.len() as int) =~= mappings@);
    bindings
}

/// The effects that grab every bound key on `root`: one for each key code
/// with modifiers that has a binding, in the order in which the hash map
/// hands its keys out.
pub fn set_keygrabs(key_bindings: &KeyBindings, root: Window) -> (effects: Vec<Effect>)
    requires
        key_bindings.wf(),
    ensures
        grabs_each(effect_views(effects@), key_bindings@, root),
        effects@.len() == key_bindings@.dom().len(),
{
    let mut effects: Vec<Effect> = Vec::new();
    let keys = key_bindings.map.keys();
    let ghost listed = keys.remaining().unref();
    assert(listed.to_set() == key_bindings@.dom());
    assert(listed.no_duplicates());
    assert forall|i: int| 0 <= i < listed.len() implies listed[i] / 0x1_0000_0000 <= u8::MAX by {
        assert(listed.to_set().contains(listed[i]));
    }
    for key in it: keys
        invariant
            effects@.len() == it.index(),
            it.seq().unref() == listed,
            forall|i: int| 0 <= i < listed.len() ==> listed[i] / 0x1_0000_0000 <= u8::MAX,
            forall|i: int|
                0 <= i < effects@.len() ==> (#[trigger] effects@[i])@ == grab_of(listed[i], root),
    {
        let key: u64 = *key;
        assert(key == listed[it.index() as int]);
        effects.push(
            Effect::GrabKey {
                keycode: (key / KEYCODE_UNIT) as u8,
                modifiers: (key % KEYCODE_UNIT) as u32,
                grab_window: root,
            },
        );
    }
    assert(effect_views(effects@) =~= grabs_of(listed, root));
    effects
}

/// The modifiers of a key press whose state is `state`.
pub fn key_modifiers(state: u32) -> (modifiers: u32)
    ensures
        modifiers == modifiers_of(state),
{
    state & MOD_MASK_ALL
}

/// The action for a key press: what is bound to its key code with the
/// modifiers of its state.
pub fn resolve_key(key_bindings: &KeyBindings, keycode: u8, state: u32) -> (action: Option<
    ActionEvent,
>)
    ensures
        action == lookup(key_bindings@, keycode, modifiers_of(state)),
{
    key_bindings.get(keycode, key_modifiers(state))
}

} // verus!
