//! The state of the manager as a mathematical value, and each operation as a
//! function from the state before to the state after and the effects.

use crate::config::NUM_WORKSPACES;
use crate::effect::{EffectView, Window};
use crate::key_mapping::ActionEvent;
use crate::layout::{Layout, Layouts, Rect};
use crate::state::listing::{docks_sorted, managed_sorted};
use crate::state::ScreenConfig;
use crate::workspace::{Client, WorkspaceView};
use crate::x11::WindowType;
use vstd::prelude::*;

verus! {

/// The mapped clients among `clients`, in their order.
pub open spec fn mapped_clients(clients: Seq<Client>) -> Seq<Client>
    decreases clients.len(),
{
    if clients.len() == 0 {
        Seq::empty()
    } else if clients.last().mapped {
        mapped_clients(clients.drop_last()).push(clients.last())
    } else {
        mapped_clients(clients.drop_last())
    }
}

/// The weights of `clients`, in their order.
pub open spec fn weights_of(clients: Seq<Client>) -> Seq<u32> {
    clients.map_values(|c: Client| c.size)
}

/// One `Configure` per client, each with the rectangle at its position.
pub open spec fn tile_effects(clients: Seq<Client>, rects: Seq<Rect>, border: u32) -> Seq<
    EffectView,
> {
    Seq::new(
        clients.len(),
        |i: int|
            EffectView::Configure {
                window: clients[i].window,
                x: rects[i].x,
                y: rects[i].y,
                w: rects[i].w,
                h: rects[i].h,
                border,
            },
    )
}

/// One `Unmap` per window.
pub open spec fn unmap_effects(windows: Seq<Window>) -> Seq<EffectView> {
    windows.map_values(|w: Window| EffectView::Unmap(w))
}

/// One `MapWindow` per window.
pub open spec fn map_effects(windows: Seq<Window>) -> Seq<EffectView> {
    windows.map_values(|w: Window| EffectView::MapWindow(w))
}

/// The workspace after the mapped flag of each of `windows` was set in turn.
pub open spec fn set_each_mapped(ws: WorkspaceView, windows: Seq<Window>, mapped: bool)
    -> WorkspaceView
    decreases windows.len(),
{
    if windows.len() == 0 {
        ws
    } else {
        set_each_mapped(ws, windows.drop_last(), mapped).set_client_mapped(windows.last(), mapped)
    }
}

/// The docks without those that have the identifier `id`.
pub open spec fn without_dock(docks: Seq<Window>, id: u32) -> Seq<Window>
    decreases docks.len(),
{
    if docks.len() == 0 {
        Seq::empty()
    } else if docks.last().id != id {
        without_dock(docks.drop_last(), id).push(docks.last())
    } else {
        without_dock(docks.drop_last(), id)
    }
}

/// A value as an `i32`: itself where it fits, the nearest `i32` where not.
pub open spec fn clamped(v: int) -> i32 {
    if v < i32::MIN {
        i32::MIN
    } else if v > i32::MAX {
        i32::MAX
    } else {
        v as i32
    }
}

/// The state of the manager as a mathematical value.
#[verifier::ext_equal]
pub struct StateView {
    /// The registered layouts and the one in use.
    pub layouts: Layouts,
    /// The workspaces, by their number.
    pub workspaces: Seq<WorkspaceView>,
    /// The reverse index: the workspace of each managed window, by the
    /// window's identifier.
    pub index: Map<u32, usize>,
    /// The number of the workspace on screen.
    pub current: usize,
    pub screen: ScreenConfig,
    pub border_width: u32,
    pub window_gap: u32,
    /// The dock windows, in the order in which they came.
    pub docks: Seq<Window>,
    pub dock_height: u32,
}

/// What an operation leaves: the state after it, and the effects it asks for.
#[verifier::ext_equal]
pub struct Step {
    pub state: StateView,
    pub effects: Seq<EffectView>,
}

impl StateView {
    /// The state hangs together: a fixed number of well-formed workspaces,
    /// the current one among them; every window of the reverse index is a
    /// client of the workspace that the index gives; no dock is listed twice.
    pub open spec fn coherent(self) -> bool {
        &&& self.layouts.wf()
        &&& self.workspaces.len() == NUM_WORKSPACES
        &&& forall|i: int| 0 <= i < self.workspaces.len() ==> (#[trigger] self.workspaces[i]).wf()
        &&& self.current < NUM_WORKSPACES
        &&& self.index.dom().finite()
        &&& forall|id: u32| #[trigger]
            self.index.contains_key(id) ==> self.index[id] < NUM_WORKSPACES
                && self.workspaces[self.index[id] as int].contains(Window { id })
        &&& forall|i: int, j: int|
            0 <= i < j < self.docks.len() ==> (#[trigger] self.docks[i]).id != (
            #[trigger] self.docks[j]).id
    }

    /// The reverse index is exact: every client of a workspace is listed in
    /// the index under that workspace, and no dock is listed in it.
    pub open spec fn exact(self) -> bool {
        &&& forall|i: int, w: Window|
            0 <= i < self.workspaces.len() && #[trigger] self.workspaces[i].contains(w)
                ==> self.index.contains_key(w.id) && self.index[w.id] == i
        &&& forall|d: int|
            0 <= d < self.docks.len() ==> !self.index.contains_key((#[trigger] self.docks[d]).id)
    }

    /// The invariant of the state, which every operation keeps: the state
    /// hangs together and the reverse index is exact. So a window is in the
    /// reverse index exactly if it is a client of a workspace, it is a client
    /// of that one workspace and of no other, and a dock is neither a client
    /// nor in the index.
    pub open spec fn wf(self) -> bool {
        self.coherent() && self.exact()
    }

    /// The state without `w` as a managed window: its client is taken out of
    /// the workspace that the reverse index gives for it, and its entry out of
    /// the index.
    pub open spec fn without_client(self, w: Window) -> StateView {
        if self.index.contains_key(w.id) {
            let id = self.index[w.id];
            let unlisted = StateView { index: self.index.remove(w.id), ..self };
            if id < self.workspaces.len() {
                unlisted.with_workspace(id as int, self.workspaces[id as int].remove_client(w))
            } else {
                unlisted
            }
        } else {
            self
        }
    }

    /// The state without `w` among the docks.
    pub open spec fn without_dock_window(self, w: Window) -> StateView {
        StateView { docks: without_dock(self.docks, w.id), ..self }
    }

    /// The state in which `w` is tracked nowhere but, at most, as a client of
    /// workspace `id`: it is no dock, and it is not managed on another
    /// workspace.
    pub open spec fn cleared_for(self, w: Window, id: usize) -> StateView {
        let moved = if self.index.contains_key(w.id) && self.index[w.id] != id {
            self.without_client(w)
        } else {
            self
        };
        moved.without_dock_window(w)
    }

    /// The state of a fresh manager.
    pub open spec fn initial(
        screen: ScreenConfig,
        border_width: u32,
        window_gap: u32,
        dock_height: u32,
    ) -> StateView {
        StateView {
            layouts: Layouts::initial(),
            workspaces: Seq::new(NUM_WORKSPACES as nat, |i: int| WorkspaceView::empty()),
            index: Map::empty(),
            current: 0,
            screen,
            border_width,
            window_gap,
            docks: Seq::empty(),
            dock_height,
        }
    }

    /// The workspace on screen.
    pub open spec fn workspace(self) -> WorkspaceView {
        self.workspaces[self.current as int]
    }

    /// The state with `ws` as workspace number `i`.
    pub open spec fn with_workspace(self, i: int, ws: WorkspaceView) -> StateView {
        StateView { workspaces: self.workspaces.update(i, ws), ..self }
    }

    /// The state with `ws` as the workspace on screen.
    pub open spec fn with_current(self, ws: WorkspaceView) -> StateView {
        self.with_workspace(self.current as int, ws)
    }

    /// The focused window of the workspace on screen.
    pub open spec fn focused_window(self) -> Option<Window> {
        self.workspace().focused_window()
    }

    /// Some dock has the identifier `id`.
    pub open spec fn has_dock(self, id: u32) -> bool {
        exists|i: int| 0 <= i < self.docks.len() && (#[trigger] self.docks[i]).id == id
    }

    /// The workspace of `w` according to the reverse index.
    pub open spec fn window_workspace(self, w: Window) -> Option<usize> {
        if self.index.contains_key(w.id) {
            Some(self.index[w.id])
        } else {
            None
        }
    }

    /// The windows for the client list: the managed windows by workspace and
    /// identifier, then the docks by identifier.
    pub open spec fn client_list(self) -> Seq<Window> {
        managed_sorted(self.index) + docks_sorted(self.docks)
    }

    /// `w` is the fullscreen window of the workspace that the reverse index
    /// gives for it.
    pub open spec fn is_window_fullscreen(self, w: Window) -> bool {
        &&& self.index.contains_key(w.id)
        &&& self.index[w.id] < self.workspaces.len()
        &&& self.workspaces[self.index[w.id] as int].fullscreen == Some(w)
    }

    /// How the state tracks `w`: as a dock, as a managed window, or not at
    /// all.
    pub open spec fn tracked_window_type(self, w: Window) -> WindowType {
        if self.has_dock(w.id) {
            WindowType::Dock
        } else if self.index.contains_key(w.id) {
            WindowType::Managed
        } else {
            WindowType::Unmanaged
        }
    }

    /// The height that tiles may use: the screen less the dock strip, if
    /// there is a dock.
    pub open spec fn usable_screen_height(self) -> u32 {
        if self.docks.len() > 0 {
            if self.screen.height >= self.dock_height {
                (self.screen.height - self.dock_height) as u32
            } else {
                0
            }
        } else {
            self.screen.height
        }
    }

    /// The area that tiles may use.
    pub open spec fn usable_area(self) -> Rect {
        Rect { x: 0, y: 0, w: self.screen.width, h: self.usable_screen_height() }
    }

    /// A mapped fullscreen window of workspace `ws`, if it has one.
    pub open spec fn mapped_fullscreen(ws: WorkspaceView) -> Option<Window> {
        match ws.fullscreen {
            Some(w) => if ws.is_mapped(w) {
                Some(w)
            } else {
                None
            },
            None => None,
        }
    }

    /// The effects that lay out workspace `id`. A mapped fullscreen window
    /// covers the screen without a border and is raised. Otherwise the layout
    /// in use gives each mapped client its tile, with the border width.
    pub open spec fn configure_windows(self, id: usize) -> Seq<EffectView> {
        if id < self.workspaces.len() {
            let ws = self.workspaces[id as int];
            match Self::mapped_fullscreen(ws) {
                Some(w) => seq![
                    EffectView::Configure {
                        window: w,
                        x: 0,
                        y: 0,
                        w: self.screen.width,
                        h: self.screen.height,
                        border: 0,
                    },
                    EffectView::Raise(w),
                ],
                None => {
                    let clients = mapped_clients(ws.clients);
                    if clients.len() == 0 {
                        Seq::empty()
                    } else {
                        tile_effects(
                            clients,
                            self.layouts.strategy().layout(
                                self.usable_area(),
                                weights_of(clients),
                                self.border_width,
                                self.window_gap,
                            ),
                            self.border_width,
                        )
                    }
                },
            }
        } else {
            Seq::empty()
        }
    }

    /// The effects that put every dock on the strip at the bottom of the
    /// screen.
    pub open spec fn configure_dock_windows(self) -> Seq<EffectView> {
        Seq::new(
            self.docks.len(),
            |i: int|
                EffectView::ConfigurePositionSize {
                    window: self.docks[i],
                    x: 0,
                    y: clamped(self.screen.height - self.dock_height),
                    w: self.screen.width,
                    h: self.dock_height,
                },
        )
    }

    /// The border and focus effects of a focus change from `previous` to `w`
    /// in a workspace whose fullscreen mark was `fullscreen`.
    pub open spec fn focus_effects(
        self,
        previous: Option<Window>,
        fullscreen: Option<Window>,
        w: Window,
    ) -> Seq<EffectView> {
        let reset = match previous {
            Some(p) => seq![
                EffectView::SetBorder {
                    window: p,
                    pixel: self.screen.normal_border_pixel,
                    width: if fullscreen == Some(p) {
                        0
                    } else {
                        self.border_width
                    },
                },
            ],
            None => Seq::empty(),
        };
        let focus = seq![
            EffectView::SetBorder {
                window: w,
                pixel: self.screen.focused_border_pixel,
                width: if fullscreen == Some(w) {
                    0
                } else {
                    self.border_width
                },
            },
            EffectView::Focus(w),
        ];
        let raise = if fullscreen == Some(w) {
            seq![EffectView::Raise(w)]
        } else {
            Seq::empty()
        };
        reset + focus + raise
    }

    /// A mapped fullscreen window of workspace `ws` holds the focus against
    /// `w`: there is one, and it is another window.
    pub open spec fn pinned_against(ws: WorkspaceView, w: Window) -> bool {
        Self::mapped_fullscreen(ws) matches Some(fullscreen) && fullscreen != w
    }

    /// Focus `w` on the workspace on screen. Nothing happens while a mapped
    /// fullscreen window holds the focus against `w`, or if `w` has no mapped
    /// client there. The fullscreen window itself can be focused anew: its
    /// border stays at nothing, and it is raised.
    pub open spec fn set_focus(self, w: Window) -> Step {
        let ws = self.workspace();
        if Self::pinned_against(ws, w) || !ws.accepts_focus(w) {
            Step { state: self, effects: Seq::empty() }
        } else {
            Step {
                state: self.with_current(ws.set_focus(w)),
                effects: self.focus_effects(ws.focused_window(), ws.fullscreen, w),
            }
        }
    }

    /// Focus the focused window of the workspace on screen anew, if there is
    /// one.
    pub open spec fn reassert_focus(self) -> Step {
        match self.focused_window() {
            Some(w) => self.set_focus(w),
            None => Step { state: self, effects: Seq::empty() },
        }
    }

    /// Turn fullscreen on or off for the focused window. Turning it on raises
    /// the window; either way the workspace is laid out, and then the window
    /// is focused anew, which brings its border and the input focus in line.
    pub open spec fn toggle_fullscreen(self) -> Step {
        let ws = self.workspace();
        match ws.focused_window() {
            Some(focused) => {
                let off = ws.fullscreen == Some(focused);
                let marked = if off {
                    self.with_current(ws.clear_fullscreen())
                } else {
                    self.with_current(ws.set_fullscreen(focused))
                };
                let raise = if off {
                    Seq::empty()
                } else {
                    seq![EffectView::Raise(focused)]
                };
                let focus = marked.set_focus(focused);
                Step {
                    state: focus.state,
                    effects: raise + marked.configure_windows(marked.current) + focus.effects,
                }
            },
            None => Step { state: self, effects: Seq::empty() },
        }
    }

    /// Put workspace `id` on screen, whether or not it is there already. If
    /// another workspace is on screen, every client of that one is unmapped
    /// first. Then every client of workspace `id` is mapped, the workspace is
    /// laid out and its focus asserted. Nothing happens if there is no such
    /// workspace.
    pub open spec fn show_workspace(self, id: usize) -> Step {
        if id >= NUM_WORKSPACES {
            Step { state: self, effects: Seq::empty() }
        } else {
            let old_windows = if self.current == id {
                Seq::empty()
            } else {
                self.workspace().windows()
            };
            let left = if self.current == id {
                self
            } else {
                self.with_current(set_each_mapped(self.workspace(), old_windows, false))
            };
            let new_windows = left.workspaces[id as int].windows();
            let entered = StateView { current: id, ..left }.with_workspace(
                id as int,
                set_each_mapped(left.workspaces[id as int], new_windows, true),
            );
            let focus = entered.reassert_focus();
            Step {
                state: focus.state,
                effects: unmap_effects(old_windows) + map_effects(new_windows)
                    + entered.configure_windows(id) + focus.effects,
            }
        }
    }

    /// Switch to workspace `id`. Every client of the workspace that leaves
    /// the screen is unmapped, every client of the one that enters is mapped,
    /// the new workspace is laid out and its focus asserted. Nothing happens
    /// if workspace `id` is on screen already, or if there is none.
    pub open spec fn go_to_workspace(self, id: usize) -> Step {
        if self.current == id {
            Step { state: self, effects: Seq::empty() }
        } else {
            self.show_workspace(id)
        }
    }

    /// Focus `w`, which may be on another workspace: the reverse index or,
    /// failing that, `desktop_hint` says on which. Nothing happens while the
    /// workspace on screen has a fullscreen window.
    pub open spec fn focus_window(self, w: Window, desktop_hint: Option<usize>) -> Step {
        let target = match self.window_workspace(w) {
            Some(id) => Some(id),
            None => desktop_hint,
        };
        if self.workspace().fullscreen is Some {
            Step { state: self, effects: Seq::empty() }
        } else {
            match target {
                Some(id) => {
                    let switch = if id < NUM_WORKSPACES && id != self.current {
                        self.go_to_workspace(id)
                    } else {
                        Step { state: self, effects: Seq::empty() }
                    };
                    let focus = switch.state.set_focus(w);
                    Step { state: focus.state, effects: switch.effects + focus.effects }
                },
                None => Step { state: self, effects: Seq::empty() },
            }
        }
    }

    /// Send the focused window to workspace `id`, where it waits unmapped.
    pub open spec fn send_to_workspace(self, id: usize) -> Step {
        if id >= NUM_WORKSPACES || id == self.current {
            Step { state: self, effects: Seq::empty() }
        } else {
            let ws = self.workspace();
            match ws.focused_window() {
                Some(w) => {
                    let taken = self.with_current(ws.remove_at(ws.focus.unwrap() as int));
                    let sent = StateView {
                        index: self.index.insert(w.id, id),
                        ..taken.with_workspace(
                            id as int,
                            taken.workspaces[id as int].push_window(w).set_client_mapped(w, false),
                        )
                    };
                    let focus = sent.reassert_focus();
                    Step {
                        state: focus.state,
                        effects: seq![
                            EffectView::Unmap(w),
                            EffectView::SetBorder {
                                window: w,
                                pixel: self.screen.normal_border_pixel,
                                width: self.border_width,
                            },
                        ] + sent.configure_windows(sent.current) + focus.effects,
                    }
                },
                None => Step { state: self, effects: Seq::empty() },
            }
        }
    }

    /// The state with the weight of the focused client changed to `size`, and
    /// the layout effects; nothing without a focused client.
    pub open spec fn resize_focused(self, size: u32) -> Step {
        match self.workspace().focus {
            Some(_) => {
                let state = self.with_current(self.workspace().with_focused_size(size));
                Step { state, effects: state.configure_windows(state.current) }
            },
            None => Step { state: self, effects: Seq::empty() },
        }
    }

    /// Add `increment` to the weight of the focused client, saturating.
    pub open spec fn increase_window_weight(self, increment: u32) -> Step {
        match self.workspace().focus {
            Some(f) => self.resize_focused(
                self.workspace().clients[f as int].heavier(increment).size,
            ),
            None => Step { state: self, effects: Seq::empty() },
        }
    }

    /// Take `increment` from the weight of the focused client, leaving at
    /// least one.
    pub open spec fn decrease_window_weight(self, increment: u32) -> Step {
        match self.workspace().focus {
            Some(f) => self.resize_focused(
                self.workspace().clients[f as int].lighter(increment).size,
            ),
            None => Step { state: self, effects: Seq::empty() },
        }
    }

    /// Widen the gap by `increment`.
    pub open spec fn increase_window_gap(self, increment: u32) -> Step {
        let state = StateView { window_gap: (self.window_gap + increment) as u32, ..self };
        Step { state, effects: state.configure_windows(state.current) }
    }

    /// Narrow the gap by `decrement`, down to zero. Nothing happens if that
    /// leaves the gap as it is.
    pub open spec fn decrease_window_gap(self, decrement: u32) -> Step {
        let gap = if self.window_gap >= decrement {
            (self.window_gap - decrement) as u32
        } else {
            0
        };
        if gap == self.window_gap {
            Step { state: self, effects: Seq::empty() }
        } else {
            let state = StateView { window_gap: gap, ..self };
            Step { state, effects: state.configure_windows(state.current) }
        }
    }

    /// Move the focus to the next mapped window in a direction.
    pub open spec fn shift_focus(self, direction: int) -> Step {
        match self.workspace().next_mapped_window(direction) {
            Some(w) => self.set_focus(w),
            None => Step { state: self, effects: Seq::empty() },
        }
    }

    /// Exchange the focused window with the next mapped one in a direction.
    /// Nothing happens while the workspace has a fullscreen window.
    pub open spec fn swap_window(self, direction: int) -> Step {
        let ws = self.workspace();
        if ws.fullscreen is Some {
            Step { state: self, effects: Seq::empty() }
        } else {
            match (ws.next_mapped_window(direction), ws.focused_window()) {
                (Some(next), Some(focus)) => {
                    let state = self.with_current(ws.swap_windows(focus, next));
                    Step { state, effects: state.configure_windows(state.current) }
                },
                _ => Step { state: self, effects: Seq::empty() },
            }
        }
    }

    /// Use the next registered layout.
    pub open spec fn cycle_layout(self) -> Step {
        let state = StateView { layouts: self.layouts.cycle(), ..self };
        Step { state, effects: state.configure_windows(state.current) }
    }

    /// The state with `w` as a dock and as nothing else: if it was a managed
    /// window it is one no longer, and it joins the docks unless it is among
    /// them already.
    pub open spec fn with_dock(self, w: Window) -> StateView {
        let cleared = self.without_client(w);
        if cleared.has_dock(w.id) {
            cleared
        } else {
            StateView { docks: cleared.docks.push(w), ..cleared }
        }
    }

    /// A dock asks to be mapped.
    pub open spec fn map_dock(self, w: Window) -> Step {
        let state = self.with_dock(w);
        Step {
            state,
            effects: seq![EffectView::MapWindow(w)] + state.configure_dock_windows()
                + state.configure_windows(state.current),
        }
    }

    /// The state with `w` as a mapped client of the workspace on screen and
    /// as nothing else. If it was a dock or a client of another workspace, it
    /// is one no longer. A client that `w` has on the workspace on screen is
    /// marked as mapped, and if it has none it gets one. The reverse index
    /// lists it under that workspace.
    pub open spec fn with_managed(self, w: Window) -> StateView {
        let cleared = self.cleared_for(w, self.current);
        let ws = cleared.workspace();
        StateView {
            index: cleared.index.insert(w.id, cleared.current),
            ..cleared.with_current(
                if ws.contains(w) {
                    ws.mark_mapped(w)
                } else {
                    ws.push_window(w)
                },
            )
        }
    }

    /// A window that is to be managed asks to be mapped. It gets the focus,
    /// unless a mapped fullscreen window holds it.
    pub open spec fn map_managed(self, w: Window) -> Step {
        let placed = self.with_managed(w);
        let map = seq![EffectView::MapWindow(w)];
        if Self::mapped_fullscreen(placed.workspace()) is Some {
            Step { state: placed, effects: map + placed.configure_windows(placed.current) }
        } else {
            let focus = placed.set_focus(w);
            Step {
                state: focus.state,
                effects: map + focus.effects + focus.state.configure_windows(focus.state.current),
            }
        }
    }

    /// A window asks to be mapped.
    pub open spec fn on_map_request(self, w: Window, kind: WindowType) -> Step {
        match kind {
            WindowType::Unmanaged => Step { state: self, effects: seq![EffectView::MapWindow(w)] },
            WindowType::Dock => self.map_dock(w),
            WindowType::Managed => self.map_managed(w),
        }
    }

    /// A dock is gone.
    pub open spec fn destroy_dock(self, w: Window) -> Step {
        let state = StateView { docks: without_dock(self.docks, w.id), ..self };
        let docks = if state.docks.len() > 0 {
            state.configure_dock_windows()
        } else {
            Seq::empty()
        };
        Step { state, effects: docks + state.configure_windows(state.current) }
    }

    /// A managed window is gone.
    pub open spec fn destroy_managed(self, w: Window) -> Step {
        let removed = self.without_client(w);
        let focus = removed.reassert_focus();
        Step { state: focus.state, effects: removed.configure_windows(removed.current) + focus.effects }
    }

    /// A window is gone.
    pub open spec fn on_destroy(self, w: Window) -> Step {
        match self.tracked_window_type(w) {
            WindowType::Dock => self.destroy_dock(w),
            WindowType::Managed => self.destroy_managed(w),
            WindowType::Unmanaged => Step { state: self, effects: Seq::empty() },
        }
    }

    /// A managed window was unmapped.
    pub open spec fn unmap_managed(self, w: Window) -> Step {
        if self.index.contains_key(w.id) {
            let id = self.index[w.id];
            let changed = id < self.workspaces.len() && self.workspaces[id as int].is_mapped(w);
            let state = if changed {
                self.with_workspace(
                    id as int,
                    self.workspaces[id as int].set_client_mapped(w, false),
                )
            } else {
                self
            };
            if id == self.current && changed {
                Step { state, effects: state.configure_windows(state.current) }
            } else {
                Step { state, effects: Seq::empty() }
            }
        } else {
            Step { state: self, effects: Seq::empty() }
        }
    }

    /// A window was unmapped.
    pub open spec fn on_unmap(self, w: Window) -> Step {
        match self.tracked_window_type(w) {
            WindowType::Managed => self.unmap_managed(w),
            _ => Step { state: self, effects: Seq::empty() },
        }
    }

    /// What a key-bound action does to the state. Launching a program and
    /// closing a window are not for the state to do.
    #[verifier::opaque]
    pub open spec fn apply_action(self, action: ActionEvent) -> Step {
        match action {
            ActionEvent::NextWindow => self.shift_focus(1),
            ActionEvent::PrevWindow => self.shift_focus(-1),
            ActionEvent::IncreaseWindowWeight(n) => self.increase_window_weight(n),
            ActionEvent::DecreaseWindowWeight(n) => self.decrease_window_weight(n),
            ActionEvent::SwapLeft => self.swap_window(-1),
            ActionEvent::SwapRight => self.swap_window(1),
            ActionEvent::GoToWorkspace(id) => self.go_to_workspace(id),
            ActionEvent::SendToWorkspace(id) => self.send_to_workspace(id),
            ActionEvent::IncreaseWindowGap(n) => self.increase_window_gap(n),
            ActionEvent::DecreaseWindowGap(n) => self.decrease_window_gap(n),
            ActionEvent::ToggleFullscreen => self.toggle_fullscreen(),
            ActionEvent::CycleLayout => self.cycle_layout(),
            _ => Step { state: self, effects: Seq::empty() },
        }
    }

    /// The state with `w` as a client of workspace `id` and as nothing else,
    /// if there is such a workspace: if it was a dock or a client of another
    /// workspace, it is one no longer.
    pub open spec fn track_startup_managed(self, w: Window, id: usize) -> StateView {
        if id < self.workspaces.len() {
            let cleared = self.cleared_for(w, id);
            StateView { index: cleared.index.insert(w.id, id), ..cleared.with_workspace(
                id as int,
                cleared.workspaces[id as int].push_window(w),
            ) }
        } else {
            self
        }
    }

    /// What ends the startup: the docks are placed, and the workspace that was
    /// on screen before, if one is known and exists, is put on screen, even
    /// if it counts as being there already. Without such a workspace the state
    /// stays as it is.
    pub open spec fn startup_finalize(self, current_desktop: Option<usize>) -> Step {
        let docks = if self.docks.len() > 0 {
            self.configure_dock_windows()
        } else {
            Seq::empty()
        };
        match current_desktop {
            Some(id) => {
                let show = self.show_workspace(id);
                Step { state: show.state, effects: docks + show.effects }
            },
            None => Step { state: self, effects: docks },
        }
    }
}

} // verus!
