//! What the executor decides without the connection: how a window is
//! classified, how it is closed, and which protocol requests realise an
//! effect.

use crate::atoms::Atoms;
use crate::effect::{Atom, Effect, EffectView, Window};
use vstd::prelude::*;

verus! {

/// The predefined atom `ATOM`, the type of a property that lists atoms.
pub const ATOM_ATOM: u32 = 4;

/// The predefined atom `CARDINAL`, the type of a property that holds numbers.
pub const ATOM_CARDINAL: u32 = 6;

/// The predefined atom `WINDOW`, the type of a property that lists windows.
pub const ATOM_WINDOW: u32 = 33;

/// The timestamp that stands for the server's current time.
pub const CURRENT_TIME: u32 = 0;

/// The event mask without any event.
pub const NO_EVENT: u32 = 0;

/// The events that the manager selects on the root window: key presses, and
/// the notification and the redirection of changes to the root's children.
pub const ROOT_EVENT_MASK: u32 = 0x0018_0001;

/// How the manager treats a window.
#[derive(Clone, Copy, Debug, PartialEq, Eq, Structural)]
pub enum WindowType {
    /// A panel or bar: it gets the strip at the bottom and is never tiled.
    Dock,
    /// An ordinary top-level window: it becomes a client of a workspace.
    Managed,
    /// A window that the manager passes through untouched.
    Unmanaged,
}

/// One value of a `ConfigureWindow` request.
#[derive(Clone, Copy, Debug, PartialEq, Eq, Structural)]
pub enum ConfigValue {
    X(i32),
    Y(i32),
    Width(u32),
    Height(u32),
    BorderWidth(u32),
    /// Stack the window above its siblings.
    StackAbove,
}

/// Where the focus goes when the focused window becomes unviewable.
#[derive(Clone, Copy, Debug, PartialEq, Eq, Structural)]
pub enum RevertTo {
    NoFocus,
    PointerRoot,
    Parent,
}

/// Whether a grab freezes the device until it is released.
#[derive(Clone, Copy, Debug, PartialEq, Eq, Structural)]
pub enum GrabMode {
    Sync,
    Async,
}

/// The data of a property: 32-bit items, or text.
#[derive(Clone, Debug, PartialEq)]
pub enum PropertyData {
    Words(Vec<u32>),
    Text(String),
}

/// The data of a property as a mathematical value.
pub enum PropertyDataView {
    Words(Seq<u32>),
    Text(Seq<char>),
}

impl View for PropertyData {
    type V = PropertyDataView;

    open spec fn view(&self) -> PropertyDataView {
        match self {
            PropertyData::Words(words) => PropertyDataView::Words(words@),
            PropertyData::Text(text) => PropertyDataView::Text(text@),
        }
    }
}

/// One request of the X protocol, with the parameters that the manager sets.
#[derive(Clone, Debug, PartialEq)]
pub enum Request {
    MapWindow { window: Window },
    UnmapWindow { window: Window },
    SetInputFocus { revert_to: RevertTo, focus: Window, time: u32 },
    ConfigureWindow { window: Window, values: Vec<ConfigValue> },
    /// `ChangeWindowAttributes` with the border pixel as its one value.
    ChangeBorderPixel { window: Window, pixel: u32 },
    /// `ChangeProperty` in replace mode.
    ReplaceProperty { window: Window, property: Atom, property_type: Atom, data: PropertyData },
    KillClient { resource: u32 },
    /// `SendEvent` with a client message of 32-bit data as the event.
    SendClientMessage {
        propagate: bool,
        destination: Window,
        event_mask: u32,
        message_type: Atom,
        data: [u32; 5],
    },
    GrabKey {
        owner_events: bool,
        grab_window: Window,
        modifiers: u32,
        key: u8,
        pointer_mode: GrabMode,
        keyboard_mode: GrabMode,
    },
}

/// A request as a mathematical value.
pub enum RequestView {
    MapWindow { window: Window },
    UnmapWindow { window: Window },
    SetInputFocus { revert_to: RevertTo, focus: Window, time: u32 },
    ConfigureWindow { window: Window, values: Seq<ConfigValue> },
    ChangeBorderPixel { window: Window, pixel: u32 },
    ReplaceProperty { window: Window, property: Atom, property_type: Atom, data: PropertyDataView },
    KillClient { resource: u32 },
    SendClientMessage {
        propagate: bool,
        destination: Window,
        event_mask: u32,
        message_type: Atom,
        data: Seq<u32>,
    },
    GrabKey {
        owner_events: bool,
        grab_window: Window,
        modifiers: u32,
        key: u8,
        pointer_mode: GrabMode,
        keyboard_mode: GrabMode,
    },
}

impl View for Request {
    type V = RequestView;

    open spec fn view(&self) -> RequestView {
        match *self {
            Request::MapWindow { window } => RequestView::MapWindow { window },
            Request::UnmapWindow { window } => RequestView::UnmapWindow { window },
            Request::SetInputFocus { revert_to, focus, time } => RequestView::SetInputFocus {
                revert_to,
                focus,
                time,
            },
            Request::ConfigureWindow { window, values } => RequestView::ConfigureWindow {
                window,
                values: values@,
            },
            Request::ChangeBorderPixel { window, pixel } => RequestView::ChangeBorderPixel {
                window,
                pixel,
            },
            Request::ReplaceProperty { window, property, property_type, data } => {
                RequestView::ReplaceProperty { window, property, property_type, data: data@ }
            },
            Request::KillClient { resource } => RequestView::KillClient { resource },
            Request::SendClientMessage { propagate, destination, event_mask, message_type, data } => {
                RequestView::SendClientMessage {
                    propagate,
                    destination,
                    event_mask,
                    message_type,
                    data: data@,
                }
            },
            Request::GrabKey {
                owner_events,
                grab_window,
                modifiers,
                key,
                pointer_mode,
                keyboard_mode,
            } => RequestView::GrabKey {
                owner_events,
                grab_window,
                modifiers,
                key,
                pointer_mode,
                keyboard_mode,
            },
        }
    }
}

/// The requests of a list, each as a mathematical value.
pub open spec fn request_views(requests: Seq<Request>) -> Seq<RequestView> {
    requests.map_values(|r: Request| r@)
}

/// A request that replaces a property of 32-bit items.
pub open spec fn replace_words(window: Window, property: Atom, property_type: u32, words: Seq<u32>)
    -> RequestView {
    RequestView::ReplaceProperty {
        window,
        property,
        property_type: Atom { id: property_type },
        data: PropertyDataView::Words(words),
    }
}

/// The requests that realise an effect, in the order in which they are sent.
///
/// Configuring sends one `ConfigureWindow` with position, size and, if the
/// effect has one, border width. Setting a border sends the pixel as a window
/// attribute and the width as a configuration. Every property is replaced,
/// with the type that goes with the effect. Asking a window to close sends it
/// a client message of the protocols type that names the delete-window
/// protocol and the current time, without propagation and under the empty
/// event mask. Raising stacks the window above its siblings. Focusing reverts
/// to the pointer root and bears the current time. A key is grabbed without
/// owner events, and pointer and keyboard stay asynchronous.
pub open spec fn requests_of(effect: EffectView, atoms: Atoms) -> Seq<RequestView> {
    match effect {
        EffectView::MapWindow(window) => seq![RequestView::MapWindow { window }],
        EffectView::Unmap(window) => seq![RequestView::UnmapWindow { window }],
        EffectView::Configure { window, x, y, w, h, border } => seq![
            RequestView::ConfigureWindow {
                window,
                values: seq![
                    ConfigValue::X(x),
                    ConfigValue::Y(y),
                    ConfigValue::Width(w),
                    ConfigValue::Height(h),
                    ConfigValue::BorderWidth(border),
                ],
            },
        ],
        EffectView::ConfigurePositionSize { window, x, y, w, h } => seq![
            RequestView::ConfigureWindow {
                window,
                values: seq![
                    ConfigValue::X(x),
                    ConfigValue::Y(y),
                    ConfigValue::Width(w),
                    ConfigValue::Height(h),
                ],
            },
        ],
        EffectView::Focus(window) => seq![
            RequestView::SetInputFocus {
                revert_to: RevertTo::PointerRoot,
                focus: window,
                time: CURRENT_TIME,
            },
        ],
        EffectView::Raise(window) => seq![
            RequestView::ConfigureWindow { window, values: seq![ConfigValue::StackAbove] },
        ],
        EffectView::SetBorder { window, pixel, width } => seq![
            RequestView::ChangeBorderPixel { window, pixel },
            RequestView::ConfigureWindow { window, values: seq![ConfigValue::BorderWidth(width)] },
        ],
        EffectView::SetCardinal32 { window, atom, value } => seq![
            replace_words(window, atom, ATOM_CARDINAL, seq![value]),
        ],
        EffectView::SetCardinal32List { window, atom, values } => seq![
            replace_words(window, atom, ATOM_CARDINAL, values),
        ],
        EffectView::SetAtomList { window, atom, values } => seq![
            replace_words(window, atom, ATOM_ATOM, values),
        ],
        EffectView::SetUtf8String { window, atom, value } => seq![
            RequestView::ReplaceProperty {
                window,
                property: atom,
                property_type: atoms.utf8_string,
                data: PropertyDataView::Text(value),
            },
        ],
        EffectView::SetWindowProperty { window, atom, values } => seq![
            replace_words(window, atom, ATOM_WINDOW, values),
        ],
        EffectView::KillClient(window) => seq![RequestView::KillClient { resource: window.id }],
        EffectView::SendWmDelete(window) => seq![
            RequestView::SendClientMessage {
                propagate: false,
                destination: window,
                event_mask: NO_EVENT,
                message_type: atoms.wm_protocols,
                data: seq![atoms.wm_delete_window.id, CURRENT_TIME, 0, 0, 0],
            },
        ],
        EffectView::GrabKey { keycode, modifiers, grab_window } => seq![
            RequestView::GrabKey {
                owner_events: false,
                grab_window,
                modifiers,
                key: keycode,
                pointer_mode: GrabMode::Async,
                keyboard_mode: GrabMode::Async,
            },
        ],
    }
}

/// The requests that realise each of a list of effects, one effect after the
/// other.
pub open spec fn requests_of_all(effects: Seq<EffectView>, atoms: Atoms) -> Seq<RequestView>
    decreases effects.len(),
{
    if effects.len() == 0 {
        Seq::empty()
    } else {
        requests_of_all(effects.drop_last(), atoms) + requests_of(effects.last(), atoms)
    }
}

/// A copy of a list of 32-bit items.
fn copy_words(words: &Vec<u32>) -> (copy: Vec<u32>)
    ensures
        copy@ == words@,
{
    words.clone()
}

/// A list with one item.
fn one_word(word: u32) -> (words: Vec<u32>)
    ensures
        words@ == seq![word],
{
    let mut words: Vec<u32> = Vec::new();
    words.push(word);
    words
}

/// A request that replaces a property of 32-bit items.
fn replace_with_words(window: Window, property: Atom, property_type: u32, words: Vec<u32>)
    -> (request: Request)
    ensures
        request@ == replace_words(window, property, property_type, words@),
{
    Request::ReplaceProperty {
        window,
        property,
        property_type: Atom::new(property_type),
        data: PropertyData::Words(words),
    }
}

/// The requests that realise `effect`, in the order in which they are to be
/// sent.
pub fn requests_for(effect: &Effect, atoms: &Atoms) -> (requests: Vec<Request>)
    ensures
        request_views(requests@) == requests_of(effect@, *atoms),
        1 <= requests@.len() <= 2,
{
    let mut requests: Vec<Request> = Vec::new();
    match effect {
        Effect::MapWindow(window) => {
            requests.push(Request::MapWindow { window: *window });
        },
        Effect::Unmap(window) => {
            requests.push(Request::UnmapWindow { window: *window });
        },
        Effect::Configure { window, x, y, w, h, border } => {
            let mut values: Vec<ConfigValue> = Vec::new();
            values.push(ConfigValue::X(*x));
            values.push(ConfigValue::Y(*y));
            values.push(ConfigValue::Width(*w));
            values.push(ConfigValue::Height(*h));
            values.push(ConfigValue::BorderWidth(*border));
            assert(values@ =~= seq![
                ConfigValue::X(*x),
                ConfigValue::Y(*y),
                ConfigValue::Width(*w),
                ConfigValue::Height(*h),
                ConfigValue::BorderWidth(*border),
            ]);
            requests.push(Request::ConfigureWindow { window: *window, values });
        },
        Effect::ConfigurePositionSize { window, x, y, w, h } => {
            let mut values: Vec<ConfigValue> = Vec::new();
            values.push(ConfigValue::X(*x));
            values.push(ConfigValue::Y(*y));
            values.push(ConfigValue::Width(*w));
            values.push(ConfigValue::Height(*h));
            assert(values@ =~= seq![
                ConfigValue::X(*x),
                ConfigValue::Y(*y),
                ConfigValue::Width(*w),
                ConfigValue::Height(*h),
            ]);
            requests.push(Request::ConfigureWindow { window: *window, values });
        },
        Effect::Focus(window) => {
            requests.push(
                Request::SetInputFocus {
                    revert_to: RevertTo::PointerRoot,
                    focus: *window,
                    time: CURRENT_TIME,
                },
            );
        },
        Effect::Raise(window) => {
            let mut values: Vec<ConfigValue> = Vec::new();
            values.push(ConfigValue::StackAbove);
            assert(values@ =~= seq![ConfigValue::StackAbove]);
            requests.push(Request::ConfigureWindow { window: *window, values });
        },
        Effect::SetBorder { window, pixel, width } => {
            requests.push(Request::ChangeBorderPixel { window: *window, pixel: *pixel });
            let mut values: Vec<ConfigValue> = Vec::new();
            values.push(ConfigValue::BorderWidth(*width));
            assert(values@ =~= seq![ConfigValue::BorderWidth(*width)]);
            requests.push(Request::ConfigureWindow { window: *window, values });
        },
        Effect::SetCardinal32 { window, atom, value } => {
            requests.push(replace_with_words(*window, *atom, ATOM_CARDINAL, one_word(*value)));
        },
        Effect::SetCardinal32List { window, atom, values } => {
            requests.push(replace_with_words(*window, *atom, ATOM_CARDINAL, copy_words(values)));
        },
        Effect::SetAtomList { window, atom, values } => {
            requests.push(replace_with_words(*window, *atom, ATOM_ATOM, copy_words(values)));
        },
        Effect::SetUtf8String { window, atom, value } => {
            requests.push(
                Request::ReplaceProperty {
                    window: *window,
                    property: *atom,
                    property_type: atoms.utf8_string,
                    data: PropertyData::Text(value.clone()),
                },
            );
        },
        Effect::SetWindowProperty { window, atom, values } => {
            requests.push(replace_with_words(*window, *atom, ATOM_WINDOW, copy_words(values)));
        },
        Effect::KillClient(window) => {
            requests.push(Request::KillClient { resource: window.resource_id() });
        },
        Effect::SendWmDelete(window) => {
            let data: [u32; 5] = [atoms.wm_delete_window.resource_id(), CURRENT_TIME, 0, 0, 0];
            assert(data@ =~= seq![atoms.wm_delete_window.id, CURRENT_TIME, 0, 0, 0]);
            requests.push(
                Request::SendClientMessage {
                    propagate: false,
                    destination: *window,
                    event_mask: NO_EVENT,
                    message_type: atoms.wm_protocols,
                    data,
                },
            );
        },
        Effect::GrabKey { keycode, modifiers, grab_window } => {
            requests.push(
                Request::GrabKey {
                    owner_events: false,
                    grab_window: *grab_window,
                    modifiers: *modifiers,
                    key: *keycode,
                    pointer_mode: GrabMode::Async,
                    keyboard_mode: GrabMode::Async,
                },
            );
        },
    }
    assert(request_views(requests@) =~= requests_of(effect@, *atoms));
    requests
}

/// The requests that realise `effects`, effect by effect.
pub fn requests_for_all(effects: &[Effect], atoms: &Atoms) -> (requests: Vec<Request>)
    ensures
        request_views(requests@) == requests_of_all(
            effects@.map_values(|e: Effect| e@),
            *atoms,
        ),
{
    let ghost views = effects@.map_values(|e: Effect| e@);
    let mut requests: Vec<Request> = Vec::new();
    let mut i: usize = 0;
    assert(views.take(0) =~= Seq::empty());
    assert(request_views(requests@) =~= Seq::empty());
    while i < effects.len()
        invariant
            i <= effects@.len(),
            views == effects@.map_values(|e: Effect| e@),
            request_views(requests@) == requests_of_all(views.take(i as int), *atoms),
        decreases effects@.len() - i,
    {
        let ghost before = requests@;
        let mut more = requests_for(&effects[i], atoms);
        let ghost added = more@;
        requests.append(&mut more);
        proof {
            assert(views.take(i + 1).drop_last() =~= views.take(i as int));
            assert(views.take(i + 1).last() == effects@[i as int]@);
            assert(request_views(requests@) =~= request_views(before) + request_views(added));
        }
        i = i + 1;
    }
    assert(views.take(effects@.len() as int) =~= views);
    requests
}

/// How a window that asks to be mapped is treated, given the atoms of its
/// window-type property (none if it has no such property or the property
/// could not be read): as a dock if the dock type is among them, as a managed
/// window if not.
pub fn classify_window(window_types: &[Atom], atoms: &Atoms) -> (kind: WindowType)
    ensures
        kind == if window_types@.contains(atoms.wm_window_type_dock) {
            WindowType::Dock
        } else {
            WindowType::Managed
        },
{
    if contains_atom(window_types, atoms.wm_window_type_dock) {
        WindowType::Dock
    } else {
        WindowType::Managed
    }
}

/// Whether a window takes part in the delete-window protocol, given the atoms
/// of its protocols property.
pub fn supports_wm_delete(protocols: &[Atom], atoms: &Atoms) -> (supported: bool)
    ensures
        supported == protocols@.contains(atoms.wm_delete_window),
{
    contains_atom(protocols, atoms.wm_delete_window)
}

/// The effect that closes `window`: a polite request if the window is known
/// to take part in the delete-window protocol, a kill if it does not or if
/// that could not be found out.
pub fn close_window_effect(window: Window, supports_delete: Option<bool>) -> (effect: Effect)
    ensures
        effect@ == if supports_delete == Some(true) {
            EffectView::SendWmDelete(window)
        } else {
            EffectView::KillClient(window)
        },
{
    match supports_delete {
        Some(true) => Effect::SendWmDelete(window),
        _ => Effect::KillClient(window),
    }
}

/// Whether `atom` is among `atoms`.
fn contains_atom(atoms: &[Atom], atom: Atom) -> (found: bool)
    ensures
        found == atoms@.contains(atom),
{
    let mut i: usize = 0;
    while i < atoms.len()
        invariant
            i <= atoms@.len(),
            forall|j: int| 0 <= j < i ==> atoms@[j] != atom,
        decreases atoms@.len() - i,
    {
        if atoms[i] == atom {
            return true;
        }
        i = i + 1;
    }
    false
}

} // verus!
