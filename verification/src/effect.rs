use vstd::prelude::*;

verus! {

/// The identifier of a window on the X server.
#[derive(Clone, Copy, Debug, PartialEq, Eq, Hash, Structural)]
pub struct Window {
    pub id: u32,
}

impl Window {
    pub fn new(id: u32) -> (window: Window)
        ensures
            window.id == id,
    {
        Window { id }
    }

    pub fn resource_id(&self) -> (id: u32)
        ensures
            id == self.id,
    {
        self.id
    }
}

/// The identifier of an interned atom.
#[derive(Clone, Copy, Debug, PartialEq, Eq, Hash, Structural)]
pub struct Atom {
    pub id: u32,
}

impl Atom {
    pub fn new(id: u32) -> (atom: Atom)
        ensures
            atom.id == id,
    {
        Atom { id }
    }

    pub fn resource_id(&self) -> (id: u32)
        ensures
            id == self.id,
    {
        self.id
    }
}

/// One action on the X server, as a value: what the decision layer hands to
/// whoever owns the connection.
#[derive(Debug, Clone, PartialEq)]
#[allow(inconsistent_fields)]
pub enum Effect {
    MapWindow(Window),
    Unmap(Window),
    Configure { window: Window, x: i32, y: i32, w: u32, h: u32, border: u32 },
    ConfigurePositionSize { window: Window, x: i32, y: i32, w: u32, h: u32 },
    Focus(Window),
    Raise(Window),
    SetBorder { window: Window, pixel: u32, width: u32 },
    SetCardinal32 { window: Window, atom: Atom, value: u32 },
    SetCardinal32List { window: Window, atom: Atom, values: Vec<u32> },
    SetAtomList { window: Window, atom: Atom, values: Vec<u32> },
    SetUtf8String { window: Window, atom: Atom, value: String },
    SetWindowProperty { window: Window, atom: Atom, values: Vec<u32> },
    KillClient(Window),
    SendWmDelete(Window),
    GrabKey { keycode: u8, modifiers: u32, grab_window: Window },
}

/// An effect as a mathematical value: lists are sequences, text is a sequence
/// of characters.
#[allow(inconsistent_fields)]
pub enum EffectView {
    MapWindow(Window),
    Unmap(Window),
    Configure { window: Window, x: i32, y: i32, w: u32, h: u32, border: u32 },
    ConfigurePositionSize { window: Window, x: i32, y: i32, w: u32, h: u32 },
    Focus(Window),
    Raise(Window),
    SetBorder { window: Window, pixel: u32, width: u32 },
    SetCardinal32 { window: Window, atom: Atom, value: u32 },
    SetCardinal32List { window: Window, atom: Atom, values: Seq<u32> },
    SetAtomList { window: Window, atom: Atom, values: Seq<u32> },
    SetUtf8String { window: Window, atom: Atom, value: Seq<char> },
    SetWindowProperty { window: Window, atom: Atom, values: Seq<u32> },
    KillClient(Window),
    SendWmDelete(Window),
    GrabKey { keycode: u8, modifiers: u32, grab_window: Window },
}

impl View for Effect {
    type V = EffectView;

    open spec fn view(&self) -> EffectView {
        match *self {
            Effect::MapWindow(w) => EffectView::MapWindow(w),
            Effect::Unmap(w) => EffectView::Unmap(w),
            Effect::Configure { window, x, y, w, h, border } => EffectView::Configure {
                window,
                x,
                y,
                w,
                h,
                border,
            },
            Effect::ConfigurePositionSize { window, x, y, w, h } => {
                EffectView::ConfigurePositionSize { window, x, y, w, h }
            },
            Effect::Focus(w) => EffectView::Focus(w),
            Effect::Raise(w) => EffectView::Raise(w),
            Effect::SetBorder { window, pixel, width } => EffectView::SetBorder {
                window,
                pixel,
                width,
            },
            Effect::SetCardinal32 { window, atom, value } => EffectView::SetCardinal32 {
                window,
                atom,
                value,
            },
            Effect::SetCardinal32List { window, atom, values } => EffectView::SetCardinal32List {
                window,
                atom,
                values: values@,
            },
            Effect::SetAtomList { window, atom, values } => EffectView::SetAtomList {
                window,
                atom,
                values: values@,
            },
            Effect::SetUtf8String { window, atom, value } => EffectView::SetUtf8String {
                window,
                atom,
                value: value@,
            },
            Effect::SetWindowProperty { window, atom, values } => EffectView::SetWindowProperty {
                window,
                atom,
                values: values@,
            },
            Effect::KillClient(w) => EffectView::KillClient(w),
            Effect::SendWmDelete(w) => EffectView::SendWmDelete(w),
            Effect::GrabKey { keycode, modifiers, grab_window } => EffectView::GrabKey {
                keycode,
                modifiers,
                grab_window,
            },
        }
    }
}

/// The effects of a list, each as a mathematical value.
pub open spec fn effect_views(effects: Seq<Effect>) -> Seq<EffectView> {
    effects.map_values(|e: Effect| e@)
}

/// Appends `more` to `effects`.
pub fn extend_effects(effects: &mut Vec<Effect>, more: Vec<Effect>)
    ensures
        final(effects)@ == old(effects)@ + more@,
        effect_views(final(effects)@) == effect_views(old(effects)@) + effect_views(more@),
{
    let ghost added = more@;
    let mut more = more;
    effects.append(&mut more);
    assert(effect_views(effects@) =~= effect_views(old(effects)@) + effect_views(added));
}

/// Appends one effect to `effects`.
pub fn push_effect(effects: &mut Vec<Effect>, effect: Effect)
    ensures
        final(effects)@ == old(effects)@.push(effect),
        effect_views(final(effects)@) == effect_views(old(effects)@).push(effect@),
{
    effects.push(effect);
    assert(effect_views(effects@) =~= effect_views(old(effects)@).push(effect@));
}

} // verus!
