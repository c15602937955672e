//! The EWMH side of the manager: the effects that publish the root-window
//! properties by which pagers, docks and utilities follow the manager.

use crate::atoms::Atoms;
use crate::config::NUM_WORKSPACES;
use crate::effect::{effect_views, extend_effects, push_effect, Atom, Effect, EffectView, Window};
use crate::state::listing::managed_sorted;
use crate::state::model::StateView;
use crate::state::State;
use vstd::prelude::*;
use vstd::string::StringExecFns;

verus! {

/// The name under which the manager presents itself.
pub open spec fn wm_name() -> Seq<char> {
    "rdwm"@
}

/// One decimal digit as text.
pub open spec fn digit_text(d: int) -> Seq<char> {
    if d == 0 {
        "0"@
    } else if d == 1 {
        "1"@
    } else if d == 2 {
        "2"@
    } else if d == 3 {
        "3"@
    } else if d == 4 {
        "4"@
    } else if d == 5 {
        "5"@
    } else if d == 6 {
        "6"@
    } else if d == 7 {
        "7"@
    } else if d == 8 {
        "8"@
    } else {
        "9"@
    }
}

/// A number in decimal, without leading zeros.
pub open spec fn decimal(n: nat) -> Seq<char>
    decreases n,
{
    if n < 10 {
        digit_text(n as int)
    } else {
        decimal(n / 10) + digit_text((n % 10) as int)
    }
}

/// The names of the first `count` desktops: each is the desktop's number,
/// counted from one, followed by a NUL.
pub open spec fn desktop_names(count: nat) -> Seq<char>
    decreases count,
{
    if count == 0 {
        Seq::empty()
    } else {
        desktop_names((count - 1) as nat) + decimal(count) + "\0"@
    }
}

/// The identifiers of the windows, in their order.
pub open spec fn window_ids(windows: Seq<Window>) -> Seq<u32> {
    windows.map_values(|w: Window| w.id)
}

/// The identifiers of the atoms, in their order.
pub open spec fn atom_ids(atoms: Seq<Atom>) -> Seq<u32> {
    atoms.map_values(|a: Atom| a.id)
}

/// The atoms that the manager declares as supported, in the order in which it
/// lists them.
pub open spec fn supported_atoms(atoms: Atoms) -> Seq<Atom> {
    seq![
        atoms.supported,
        atoms.supporting_wm_check,
        atoms.number_of_desktops,
        atoms.current_desktop,
        atoms.desktop_names,
        atoms.desktop_viewport,
        atoms.desktop_geometry,
        atoms.workarea,
        atoms.showing_desktop,
        atoms.active_window,
        atoms.client_list,
        atoms.client_list_stacking,
        atoms.wm_name,
        atoms.wm_pid,
        atoms.wm_window_type,
        atoms.wm_window_type_dock,
        atoms.wm_strut_partial,
        atoms.wm_state,
        atoms.wm_state_fullscreen,
        atoms.wm_desktop,
        atoms.close_window,
    ]
}

/// What a client message asks of the manager.
#[derive(Clone, Copy, Debug, PartialEq, Eq, Structural)]
pub enum ClientRequest {
    /// Show the workspace with this number.
    SwitchDesktop(usize),
    /// Focus this window.
    Activate(Window),
    /// Close this window.
    Close(Window),
    /// Nothing: the message is of no type that the manager honours.
    Ignore,
}

/// The producer of the EWMH effects: it knows the atoms, the root window and
/// the check window.
#[derive(Clone, Copy, Debug)]
pub struct EwmhManager {
    atoms: Atoms,
    root: Window,
    wm_check_window: Window,
}

impl EwmhManager {
    pub closed spec fn atoms(&self) -> Atoms {
        self.atoms
    }

    pub closed spec fn root(&self) -> Window {
        self.root
    }

    pub closed spec fn check_window(&self) -> Window {
        self.wm_check_window
    }

    pub fn new(atoms: Atoms, root: Window, wm_check_window: Window) -> (manager: EwmhManager)
        ensures
            manager.atoms() == atoms,
            manager.root() == root,
            manager.check_window() == wm_check_window,
    {
        EwmhManager { atoms, root, wm_check_window }
    }

    /// The properties that announce the manager: the check window on the root
    /// and on itself, the manager's name and process on the check window, and
    /// on the root the supported atoms, the desktops with viewport and names,
    /// and empty client lists and active window.
    pub open spec fn published(&self, pid: u32) -> Seq<EffectView> {
        let atoms = self.atoms();
        let root = self.root();
        let check = self.check_window();
        seq![
            EffectView::SetWindowProperty {
                window: root,
                atom: atoms.supporting_wm_check,
                values: seq![check.id],
            },
            EffectView::SetWindowProperty {
                window: check,
                atom: atoms.supporting_wm_check,
                values: seq![check.id],
            },
            EffectView::SetUtf8String { window: check, atom: atoms.wm_name, value: wm_name() },
            EffectView::SetCardinal32 { window: check, atom: atoms.wm_pid, value: pid },
            EffectView::SetAtomList {
                window: root,
                atom: atoms.supported,
                values: atom_ids(supported_atoms(atoms)),
            },
            EffectView::SetCardinal32 {
                window: root,
                atom: atoms.number_of_desktops,
                value: NUM_WORKSPACES as u32,
            },
            EffectView::SetCardinal32 { window: root, atom: atoms.current_desktop, value: 0 },
            EffectView::SetCardinal32 { window: root, atom: atoms.showing_desktop, value: 0 },
            EffectView::SetCardinal32List {
                window: root,
                atom: atoms.desktop_viewport,
                values: Seq::new((NUM_WORKSPACES * 2) as nat, |i: int| 0u32),
            },
            EffectView::SetUtf8String {
                window: root,
                atom: atoms.desktop_names,
                value: desktop_names(NUM_WORKSPACES as nat),
            },
            EffectView::SetWindowProperty {
                window: root,
                atom: atoms.client_list,
                values: Seq::empty(),
            },
            EffectView::SetWindowProperty {
                window: root,
                atom: atoms.client_list_stacking,
                values: Seq::empty(),
            },
            EffectView::SetWindowProperty {
                window: root,
                atom: atoms.active_window,
                values: Seq::empty(),
            },
        ]
    }

    /// The effects that announce the manager at startup. `pid` is the
    /// manager's process identifier.
    pub fn publish_hints(&self, pid: u32) -> (effects: Vec<Effect>)
        ensures
            effect_views(effects@) == self.published(pid),
    {
        let atoms = &self.atoms;
        let root = self.root;
        let check = self.wm_check_window;

        let mut supported: Vec<u32> = Vec::new();
        supported.push(atoms.supported.resource_id());
        supported.push(atoms.supporting_wm_check.resource_id());
        supported.push(atoms.number_of_desktops.resource_id());
        supported.push(atoms.current_desktop.resource_id());
        supported.push(atoms.desktop_names.resource_id());
        supported.push(atoms.desktop_viewport.resource_id());
        supported.push(atoms.desktop_geometry.resource_id());
        supported.push(atoms.workarea.resource_id());
        supported.push(atoms.showing_desktop.resource_id());
        supported.push(atoms.active_window.resource_id());
        supported.push(atoms.client_list.resource_id());
        supported.push(atoms.client_list_stacking.resource_id());
        supported.push(atoms.wm_name.resource_id());
        supported.push(atoms.wm_pid.resource_id());
        supported.push(atoms.wm_window_type.resource_id());
        supported.push(atoms.wm_window_type_dock.resource_id());
        supported.push(atoms.wm_strut_partial.resource_id());
        supported.push(atoms.wm_state.resource_id());
        supported.push(atoms.wm_state_fullscreen.resource_id());
        supported.push(atoms.wm_desktop.resource_id());
        supported.push(atoms.close_window.resource_id());
        assert(supported@ =~= atom_ids(supported_atoms(self.atoms())));

        let mut names = String::new();
        let mut i: usize = 0;
        while i < NUM_WORKSPACES
            invariant
                i <= NUM_WORKSPACES,
                names@ == desktop_names(i as nat),
            decreases NUM_WORKSPACES - i,
        {
            append_decimal(&mut names, i + 1);
            names.append("\0");
            i = i + 1;
        }

        let mut viewport_zeros: Vec<u32> = Vec::new();
        let mut k: usize = 0;
        while k < NUM_WORKSPACES * 2
            invariant
                k <= NUM_WORKSPACES * 2,
                viewport_zeros@.len() == k,
                forall|j: int| 0 <= j < k ==> viewport_zeros@[j] == 0,
            decreases NUM_WORKSPACES * 2 - k,
        {
            viewport_zeros.push(0);
            k = k + 1;
        }
        assert(viewport_zeros@ =~= Seq::new((NUM_WORKSPACES * 2) as nat, |i: int| 0u32));

        let mut check_on_root: Vec<u32> = Vec::new();
        check_on_root.push(check.resource_id());
        let mut check_on_check: Vec<u32> = Vec::new();
        check_on_check.push(check.resource_id());
        assert(check_on_root@ =~= seq![check.id]);
        assert(check_on_check@ =~= seq![check.id]);

        let mut effects: Vec<Effect> = Vec::new();
        effects.push(
            Effect::SetWindowProperty {
                window: root,
                atom: atoms.supporting_wm_check,
                values: check_on_root,
            },
        );
        effects.push(
            Effect::SetWindowProperty {
                window: check,
                atom: atoms.supporting_wm_check,
                values: check_on_check,
            },
        );
        effects.push(
            Effect::SetUtf8String {
                window: check,
                atom: atoms.wm_name,
                value: String::from_str("rdwm"),
            },
        );
        effects.push(Effect::SetCardinal32 { window: check, atom: atoms.wm_pid, value: pid });
        effects.push(Effect::SetAtomList { window: root, atom: atoms.supported, values: supported });
        effects.push(
            Effect::SetCardinal32 {
                window: root,
                atom: atoms.number_of_desktops,
                value: NUM_WORKSPACES as u32,
            },
        );
        effects.push(Effect::SetCardinal32 { window: root, atom: atoms.current_desktop, value: 0 });
        effects.push(Effect::SetCardinal32 { window: root, atom: atoms.showing_desktop, value: 0 });
        effects.push(
            Effect::SetCardinal32List {
                window: root,
                atom: atoms.desktop_viewport,
                values: viewport_zeros,
            },
        );
        effects.push(
            Effect::SetUtf8String { window: root, atom: atoms.desktop_names, value: names },
        );
        effects.push(
            Effect::SetWindowProperty { window: root, atom: atoms.client_list, values: Vec::new() },
        );
        effects.push(
            Effect::SetWindowProperty {
                window: root,
                atom: atoms.client_list_stacking,
                values: Vec::new(),
            },
        );
        effects.push(
            Effect::SetWindowProperty {
                window: root,
                atom: atoms.active_window,
                values: Vec::new(),
            },
        );
        assert(effect_views(effects@) =~= self.published(pid));
        effects
    }

    /// The size of the desktop, on the root window.
    pub open spec fn desktop_geometry(&self, width: u32, height: u32) -> EffectView {
        EffectView::SetCardinal32List {
            window: self.root(),
            atom: self.atoms().desktop_geometry,
            values: seq![width, height],
        }
    }

    pub fn desktop_geometry_effect(&self, width: u32, height: u32) -> (effect: Effect)
        ensures
            effect@ == self.desktop_geometry(width, height),
    {
        let mut values: Vec<u32> = Vec::new();
        values.push(width);
        values.push(height);
        assert(values@ =~= seq![width, height]);
        Effect::SetCardinal32List {
            window: self.root,
            atom: self.atoms.desktop_geometry,
            values,
        }
    }

    /// The area that tiles may use, `x`, `y`, `w`, `h`, once for every
    /// workspace, on the root window.
    pub open spec fn workarea(&self, x: u32, y: u32, w: u32, h: u32) -> EffectView {
        EffectView::SetCardinal32List {
            window: self.root(),
            atom: self.atoms().workarea,
            values: Seq::new((4 * NUM_WORKSPACES) as nat, |i: int| seq![x, y, w, h][i % 4]),
        }
    }

    pub fn workarea_effect(&self, x: u32, y: u32, w: u32, h: u32) -> (effect: Effect)
        ensures
            effect@ == self.workarea(x, y, w, h),
    {
        let mut values: Vec<u32> = Vec::new();
        let mut i: usize = 0;
        while i < NUM_WORKSPACES
            invariant
                i <= NUM_WORKSPACES,
                values@.len() == 4 * i,
                forall|j: int| 0 <= j < values@.len() ==> values@[j] == seq![x, y, w, h][j % 4],
            decreases NUM_WORKSPACES - i,
        {
            values.push(x);
            values.push(y);
            values.push(w);
            values.push(h);
            i = i + 1;
        }
        assert(values@ =~= Seq::new(
            (4 * NUM_WORKSPACES) as nat,
            |i: int| seq![x, y, w, h][i % 4],
        ));
        Effect::SetCardinal32List { window: self.root, atom: self.atoms.workarea, values }
    }

    /// The focused window, or none, on the root window.
    pub open spec fn active_window(&self, window: Option<Window>) -> EffectView {
        EffectView::SetWindowProperty {
            window: self.root(),
            atom: self.atoms().active_window,
            values: match window {
                Some(w) => seq![w.id],
                None => Seq::empty(),
            },
        }
    }

    pub fn active_window_effect(&self, window: Option<Window>) -> (effect: Effect)
        ensures
            effect@ == self.active_window(window),
    {
        let mut values: Vec<u32> = Vec::new();
        if let Some(w) = window {
            values.push(w.resource_id());
        }
        assert(values@ =~= match window {
            Some(w) => seq![w.id],
            None => Seq::empty(),
        });
        Effect::SetWindowProperty { window: self.root, atom: self.atoms.active_window, values }
    }

    /// The client list and the stacking list, both with the windows as given,
    /// on the root window.
    pub open spec fn client_list(&self, windows: Seq<Window>) -> Seq<EffectView> {
        seq![
            EffectView::SetWindowProperty {
                window: self.root(),
                atom: self.atoms().client_list,
                values: window_ids(windows),
            },
            EffectView::SetWindowProperty {
                window: self.root(),
                atom: self.atoms().client_list_stacking,
                values: window_ids(windows),
            },
        ]
    }

    pub fn client_list_effects(&self, windows: &[Window]) -> (effects: Vec<Effect>)
        ensures
            effect_views(effects@) == self.client_list(windows@),
    {
        let values = ids_of(windows);
        let stacking = ids_of(windows);
        let mut effects: Vec<Effect> = Vec::new();
        effects.push(
            Effect::SetWindowProperty { window: self.root, atom: self.atoms.client_list, values },
        );
        effects.push(
            Effect::SetWindowProperty {
                window: self.root,
                atom: self.atoms.client_list_stacking,
                values: stacking,
            },
        );
        assert(effect_views(effects@) =~= self.client_list(windows@));
        effects
    }

    /// The number of the workspace on screen, on the root window.
    pub open spec fn current_desktop(&self, current_workspace: usize) -> EffectView {
        EffectView::SetCardinal32 {
            window: self.root(),
            atom: self.atoms().current_desktop,
            value: current_workspace as u32,
        }
    }

    pub fn current_desktop_effect(&self, current_workspace: usize) -> (effect: Effect)
        requires
            current_workspace <= u32::MAX,
        ensures
            effect@ == self.current_desktop(current_workspace),
    {
        Effect::SetCardinal32 {
            window: self.root,
            atom: self.atoms.current_desktop,
            value: current_workspace as u32,
        }
    }

    /// The workspace of a window, on that window.
    pub open spec fn window_desktop(&self, window: Window, workspace: u32) -> EffectView {
        EffectView::SetCardinal32 { window, atom: self.atoms().wm_desktop, value: workspace }
    }

    pub fn window_desktop_effect(&self, window: Window, workspace: u32) -> (effect: Effect)
        ensures
            effect@ == self.window_desktop(window, workspace),
    {
        Effect::SetCardinal32 { window, atom: self.atoms.wm_desktop, value: workspace }
    }

    /// The state of a window, on that window: the fullscreen atom if it is
    /// fullscreen, and nothing if it is not.
    pub open spec fn window_fullscreen_state(&self, window: Window, fullscreen: bool)
        -> EffectView {
        EffectView::SetAtomList {
            window,
            atom: self.atoms().wm_state,
            values: if fullscreen {
                seq![self.atoms().wm_state_fullscreen.id]
            } else {
                Seq::empty()
            },
        }
    }

    pub fn window_fullscreen_state_effect(&self, window: Window, fullscreen: bool) -> (effect:
        Effect)
        ensures
            effect@ == self.window_fullscreen_state(window, fullscreen),
    {
        let mut values: Vec<u32> = Vec::new();
        if fullscreen {
            values.push(self.atoms.wm_state_fullscreen.resource_id());
        }
        assert(values@ =~= if fullscreen {
            seq![self.atoms().wm_state_fullscreen.id]
        } else {
            Seq::empty()
        });
        Effect::SetAtomList { window, atom: self.atoms.wm_state, values }
    }

    /// For each of `windows`, its workspace and its state, window by window.
    pub open spec fn window_hints(&self, state: StateView, windows: Seq<Window>) -> Seq<
        EffectView,
    > {
        Seq::new(
            2 * windows.len(),
            |i: int|
                if i % 2 == 0 {
                    self.window_desktop(windows[i / 2], state.index[windows[i / 2].id] as u32)
                } else {
                    self.window_fullscreen_state(
                        windows[i / 2],
                        state.is_window_fullscreen(windows[i / 2]),
                    )
                },
        )
    }

    /// What is published after every turn: the client list (the managed
    /// windows by workspace and identifier, then the docks by identifier), the
    /// workspace on screen, the focused window, the area for tiles, and for
    /// each managed window its workspace and its state.
    pub open spec fn sync(&self, state: StateView) -> Seq<EffectView> {
        self.client_list(state.client_list()) + seq![
            self.current_desktop(state.current),
            self.active_window(state.focused_window()),
            self.workarea(0, 0, state.screen.width, state.usable_screen_height()),
        ] + self.window_hints(state, managed_sorted(state.index))
    }

    /// The effects that bring the published properties in line with `state`.
    pub fn sync_effects(&self, state: &State) -> (effects: Vec<Effect>)
        requires
            state@.wf(),
        ensures
            effect_views(effects@) == self.sync(state@),
            effects@.len() >= 2,
            effects@[0]@ == (EffectView::SetWindowProperty {
                window: self.root(),
                atom: self.atoms().client_list,
                values: window_ids(state@.client_list()),
            }),
    {
        let list = state.client_list_windows();
        let mut effects = self.client_list_effects(list.as_slice());
        push_effect(&mut effects, self.current_desktop_effect(state.current_workspace_id()));
        push_effect(&mut effects, self.active_window_effect(state.focused_window()));
        let screen = state.screen();
        push_effect(
            &mut effects,
            self.workarea_effect(0, 0, screen.width, state.usable_screen_height()),
        );
        let managed = state.managed_windows_sorted();
        let ghost head = effect_views(effects@);
        proof {
            assert(head =~= self.client_list(state@.client_list()) + seq![
                self.current_desktop(state@.current),
                self.active_window(state@.focused_window()),
                self.workarea(0, 0, state@.screen.width, state@.usable_screen_height()),
            ]);
            assert(effect_views(effects@).subrange(0, head.len() as int) =~= head);
        }
        let mut i: usize = 0;
        while i < managed.len()
            invariant
                i <= managed@.len(),
                state@.wf(),
                managed@ == managed_sorted(state@.index),
                forall|j: int|
                    0 <= j < managed@.len() ==> state@.index.contains_key(
                        (#[trigger] managed@[j]).id,
                    ),
                effect_views(effects@).len() == head.len() + 2 * i,
                effect_views(effects@).subrange(0, head.len() as int) == head,
                forall|j: int|
                    0 <= j < 2 * i ==> effect_views(effects@)[head.len() + j] == self.window_hints(
                        state@,
                        managed@,
                    )[j],
            decreases managed@.len() - i,
        {
            let window = managed[i];
            let ghost before = effect_views(effects@);
            match state.window_workspace(window) {
                Some(workspace) => {
                    push_effect(&mut effects, self.window_desktop_effect(window, workspace as u32));
                },
                None => {},
            }
            push_effect(
                &mut effects,
                self.window_fullscreen_state_effect(window, state.is_window_fullscreen(window)),
            );
            proof {
                let after = effect_views(effects@);
                assert(after.subrange(0, head.len() as int) =~= before.subrange(
                    0,
                    head.len() as int,
                ));
                assert forall|j: int| 0 <= j < 2 * (i + 1) implies after[head.len() + j]
                    == self.window_hints(state@, managed@)[j] by {
                    if j < 2 * i {
                        assert(after[head.len() + j] == before[head.len() + j]);
                    }
                }
            }
            i = i + 1;
        }
        proof {
            let all = effect_views(effects@);
            let hints = self.window_hints(state@, managed@);
            assert forall|j: int| 0 <= j < all.len() implies all[j] == (head + hints)[j] by {
                if j < head.len() {
                    assert(all.subrange(0, head.len() as int)[j] == all[j]);
                } else {
                    assert(all[head.len() + (j - head.len())] == hints[j - head.len()]);
                }
            }
            assert(all =~= head + hints);
            assert(all =~= self.sync(state@));
            assert(all[0] == effects@[0]@);
            assert(head[0] == all[0]);
        }
        effects
    }

    /// What a client message asks for, by its type: a message of the
    /// current-desktop type asks for the workspace whose number is its first
    /// datum, one of the active-window type for the focus on its window, one
    /// of the close-window type for its window to be closed.
    pub open spec fn request_of(&self, message_type: Atom, window: Window, datum: u32)
        -> ClientRequest {
        if message_type == self.atoms().current_desktop {
            ClientRequest::SwitchDesktop(datum as usize)
        } else if message_type == self.atoms().active_window {
            ClientRequest::Activate(window)
        } else if message_type == self.atoms().close_window {
            ClientRequest::Close(window)
        } else {
            ClientRequest::Ignore
        }
    }

    /// Reads a client message: `message_type` is its type, `window` the
    /// window it is about, `datum` the first of its data.
    pub fn client_request(&self, message_type: Atom, window: Window, datum: u32) -> (request:
        ClientRequest)
        ensures
            request == self.request_of(message_type, window, datum),
    {
        if message_type == self.atoms.current_desktop {
            ClientRequest::SwitchDesktop(datum as usize)
        } else if message_type == self.atoms.active_window {
            ClientRequest::Activate(window)
        } else if message_type == self.atoms.close_window {
            ClientRequest::Close(window)
        } else {
            ClientRequest::Ignore
        }
    }
}

/// The text of one decimal digit.
fn digit_str(d: usize) -> (text: &'static str)
    requires
        d < 10,
    ensures
        text@ == digit_text(d as int),
{
    if d == 0 {
        "0"
    } else if d == 1 {
        "1"
    } else if d == 2 {
        "2"
    } else if d == 3 {
        "3"
    } else if d == 4 {
        "4"
    } else if d == 5 {
        "5"
    } else if d == 6 {
        "6"
    } else if d == 7 {
        "7"
    } else if d == 8 {
        "8"
    } else {
        "9"
    }
}

/// Appends `n` in decimal to `text`.
fn append_decimal(text: &mut String, n: usize)
    ensures
        final(text)@ == old(text)@ + decimal(n as nat),
    decreases n,
{
    if n >= 10 {
        append_decimal(text, n / 10);
    }
    text.append(digit_str(n % 10));
}

/// The identifiers of the windows, in their order.
fn ids_of(windows: &[Window]) -> (ids: Vec<u32>)
    ensures
        ids@ == window_ids(windows@),
{
    let mut ids: Vec<u32> = Vec::new();
    let mut i: usize = 0;
    while i < windows.len()
        invariant
            i <= windows@.len(),
            ids@.len() == i,
            forall|j: int| 0 <= j < i ==> ids@[j] == windows@[j].id,
        decreases windows@.len() - i,
    {
        ids.push(windows[i].resource_id());
        i = i + 1;
    }
    assert(ids@ =~= window_ids(windows@));
    ids
}

} // verus!
