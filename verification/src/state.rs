//! The decision layer: workspaces, reverse index, docks and geometry, and the
//! effects that user actions and X events call for.

use crate::config::NUM_WORKSPACES;
use crate::effect::{effect_views, extend_effects, push_effect, Effect, EffectView, Window};
use crate::key_mapping::ActionEvent;
use crate::layout::{Layout, LayoutManager, Rect};
use crate::state::listing::{
    dock_entries, docks_sorted, entry_windows, insert_sorted, lemma_is_listing, lists,
    managed_entries, managed_sorted, strictly_sorted, Entry,
};
use crate::state::model::{
    clamped, map_effects, mapped_clients, set_each_mapped, tile_effects, unmap_effects,
    weights_of, without_dock, StateView,
};
use crate::workspace::{
    lemma_marks_wf, lemma_members, lemma_remove_at, lemma_set_client_mapped,
    lemma_swap_windows, Client, Workspace, WorkspaceView,
};
use crate::x11::WindowType;
use std::collections::HashMap;
use vstd::prelude::*;

pub mod laws;
pub mod listing;
pub mod model;

verus! {

/// The screen: its size in pixels, and the pixel values of the border of a
/// focused and of any other window.
#[derive(Clone, Copy, Debug)]
pub struct ScreenConfig {
    pub width: u32,
    pub height: u32,
    pub focused_border_pixel: u32,
    pub normal_border_pixel: u32,
}

/// The state of the manager. Its operations change it and return the effects
/// that bring the X server in line; none of them talks to the server.
pub struct State {
    layout_manager: LayoutManager,
    workspaces: Vec<Workspace>,
    window_to_workspace: HashMap<u32, usize>,
    current_workspace: usize,
    screen: ScreenConfig,
    border_width: u32,
    window_gap: u32,
    dock_windows: Vec<Window>,
    dock_height: u32,
}

impl View for State {
    type V = StateView;

    closed spec fn view(&self) -> StateView {
        StateView {
            layouts: self.layout_manager@,
            workspaces: Seq::new(self.workspaces@.len(), |i: int| self.workspaces@[i]@),
            index: self.window_to_workspace@,
            current: self.current_workspace,
            screen: self.screen,
            border_width: self.border_width,
            window_gap: self.window_gap,
            docks: self.dock_windows@,
            dock_height: self.dock_height,
        }
    }
}

impl State {
    /// A state without windows, showing the first workspace.
    pub fn new(screen: ScreenConfig, border_width: u32, window_gap: u32, dock_height: u32) -> (state:
        State)
        ensures
            state@ == StateView::initial(screen, border_width, window_gap, dock_height),
            state@.wf(),
    {
        let mut workspaces: Vec<Workspace> = Vec::new();
        let mut i: usize = 0;
        while i < NUM_WORKSPACES
            invariant
                i <= NUM_WORKSPACES,
                workspaces@.len() == i,
                forall|j: int| 0 <= j < i ==> (#[trigger] workspaces@[j])@ == WorkspaceView::empty(),
            decreases NUM_WORKSPACES - i,
        {
            workspaces.push(Workspace::new());
            i = i + 1;
        }
        let state = State {
            layout_manager: LayoutManager::new(),
            workspaces,
            window_to_workspace: HashMap::new(),
            current_workspace: 0,
            screen,
            border_width,
            window_gap,
            dock_windows: Vec::new(),
            dock_height,
        };
        assert(state@.workspaces =~= StateView::initial(
            screen,
            border_width,
            window_gap,
            dock_height,
        ).workspaces);
        state
    }

    pub fn screen(&self) -> (screen: ScreenConfig)
        ensures
            screen == self@.screen,
    {
        self.screen
    }

    pub fn current_workspace_id(&self) -> (id: usize)
        ensures
            id == self@.current,
    {
        self.current_workspace
    }

    /// The workspace with the number `id`.
    fn workspace_at(&self, id: usize) -> (ws: &Workspace)
        requires
            id < self@.workspaces.len(),
        ensures
            ws@ == self@.workspaces[id as int],
    {
        &self.workspaces[id]
    }

    /// The workspace with the number `id`, to be changed in place.
    fn workspace_mut(&mut self, id: usize) -> (ws: &mut Workspace)
        requires
            id < old(self)@.workspaces.len(),
        ensures
            ws@ == old(self)@.workspaces[id as int],
            final(self)@ =~= old(self)@.with_workspace(id as int, final(ws)@),
    {
        &mut self.workspaces[id]
    }

    /// The workspace on screen.
    pub fn current_workspace(&self) -> (ws: &Workspace)
        requires
            self@.wf(),
        ensures
            ws@ == self@.workspace(),
    {
        self.workspace_at(self.current_workspace)
    }

    /// The workspace with the number `workspace_id`, if there is one.
    pub fn get_workspace(&self, workspace_id: usize) -> (ws: Option<&Workspace>)
        ensures
            ws is Some <==> workspace_id < self@.workspaces.len(),
            ws matches Some(ws) ==> ws@ == self@.workspaces[workspace_id as int],
    {
        if workspace_id < self.workspaces.len() {
            Some(self.workspace_at(workspace_id))
        } else {
            None
        }
    }

    /// The width of the border of a tile.
    pub fn border_width(&self) -> (width: u32)
        ensures
            width == self@.border_width,
    {
        self.border_width
    }

    /// The gap around a tile.
    pub fn window_gap(&self) -> (gap: u32)
        ensures
            gap == self@.window_gap,
    {
        self.window_gap
    }

    /// The dock windows, in the order in which they came.
    pub fn dock_windows(&self) -> (docks: Vec<Window>)
        ensures
            docks@ == self@.docks,
    {
        self.dock_windows.clone()
    }

    /// Sets the mapped flag of `window` on the workspace with the number
    /// `workspace_id`, as that workspace does it; nothing happens without
    /// such a workspace.
    pub fn set_client_mapped(&mut self, workspace_id: usize, window: Window, mapped: bool)
        requires
            old(self)@.wf(),
        ensures
            final(self)@.wf(),
            final(self)@ == if workspace_id < old(self)@.workspaces.len() {
                old(self)@.with_workspace(
                    workspace_id as int,
                    old(self)@.workspaces[workspace_id as int].set_client_mapped(window, mapped),
                )
            } else {
                old(self)@
            },
    {
        if workspace_id < self.workspaces.len() {
            proof {
                lemma_set_client_mapped(self@.workspaces[workspace_id as int], window, mapped);
            }
            self.workspace_mut(workspace_id).set_client_mapped(window, mapped);
            proof {
                lemma_with_workspace_wf(
                    old(self)@,
                    workspace_id as int,
                    self@.workspaces[workspace_id as int],
                );
            }
        }
    }

    /// The focused window of the workspace on screen.
    pub fn focused_window(&self) -> (window: Option<Window>)
        requires
            self@.wf(),
        ensures
            window == self@.focused_window(),
    {
        self.workspace_at(self.current_workspace).get_focused_window()
    }

    /// The height that tiles may use: the screen less the dock strip, if
    /// there is a dock.
    pub fn usable_screen_height(&self) -> (height: u32)
        ensures
            height == self@.usable_screen_height(),
    {
        if self.dock_windows.len() > 0 {
            return self.screen.height.saturating_sub(self.dock_height);
        }
        self.screen.height
    }

    /// The effects that lay out the workspace with the number `workspace_id`.
    pub fn configure_windows(&self, workspace_id: usize) -> (effects: Vec<Effect>)
        requires
            self@.wf(),
        ensures
            effect_views(effects@) == self@.configure_windows(workspace_id),
    {
        let mut effects: Vec<Effect> = Vec::new();
        if workspace_id >= self.workspaces.len() {
            assert(effect_views(effects@) =~= Seq::empty());
            return effects;
        }
        let workspace = self.workspace_at(workspace_id);
        if let Some(fullscreen) = workspace.get_fullscreen_window() {
            if workspace.is_window_mapped(fullscreen) {
                effects.push(
                    Effect::Configure {
                        window: fullscreen,
                        x: 0,
                        y: 0,
                        w: self.screen.width,
                        h: self.screen.height,
                        border: 0,
                    },
                );
                effects.push(Effect::Raise(fullscreen));
                assert(effect_views(effects@) =~= self@.configure_windows(workspace_id));
                return effects;
            }
        }
        let clients = mapped_only(workspace.iter_clients());
        if clients.len() == 0 {
            assert(effect_views(effects@) =~= Seq::empty());
            return effects;
        }
        let weights = sizes(&clients);
        let area = Rect { x: 0, y: 0, w: self.screen.width, h: self.usable_screen_height() };
        let layout = self.layout_manager.get_current_layout().generate_layout(
            area,
            weights.as_slice(),
            self.border_width,
            self.window_gap,
        );
        let mut i: usize = 0;
        while i < clients.len()
            invariant
                i <= clients@.len(),
                layout@.len() == clients@.len(),
                effects@.len() == i,
                forall|j: int|
                    0 <= j < i ==> (#[trigger] effects@[j])@ == tile_effects(
                        clients@,
                        layout@,
                        self.border_width,
                    )[j],
            decreases clients@.len() - i,
        {
            let rect = layout[i];
            effects.push(
                Effect::Configure {
                    window: clients[i].window(),
                    x: rect.x,
                    y: rect.y,
                    w: rect.w,
                    h: rect.h,
                    border: self.border_width,
                },
            );
            i = i + 1;
        }
        assert(effect_views(effects@) =~= tile_effects(clients@, layout@, self.border_width));
        effects
    }

    /// The effects that put every dock on the strip at the bottom of the
    /// screen.
    pub fn configure_dock_windows(&self) -> (effects: Vec<Effect>)
        ensures
            effect_views(effects@) == self@.configure_dock_windows(),
    {
        let mut effects: Vec<Effect> = Vec::new();
        let dock_y = clamp_i32(self.screen.height as i64 - self.dock_height as i64);
        let mut i: usize = 0;
        while i < self.dock_windows.len()
            invariant
                i <= self.dock_windows@.len(),
                dock_y == clamped(self.screen.height - self.dock_height),
                effects@.len() == i,
                forall|j: int|
                    0 <= j < i ==> (#[trigger] effects@[j])@ == self@.configure_dock_windows()[j],
            decreases self.dock_windows@.len() - i,
        {
            effects.push(
                Effect::ConfigurePositionSize {
                    window: self.dock_windows[i],
                    x: 0,
                    y: dock_y,
                    w: self.screen.width,
                    h: self.dock_height,
                },
            );
            i = i + 1;
        }
        assert(effect_views(effects@) =~= self@.configure_dock_windows());
        effects
    }

    /// Focuses `window` on the workspace on screen and returns the border and
    /// focus effects. Nothing happens while another window is fullscreen and
    /// mapped, or if `window` has no mapped client on that workspace.
    pub fn set_focus(&mut self, window: Window) -> (effects: Vec<Effect>)
        requires
            old(self)@.wf(),
        ensures
            final(self)@.wf(),
            final(self)@ == old(self)@.set_focus(window).state,
            effect_views(effects@) == old(self)@.set_focus(window).effects,
    {
        let mut effects: Vec<Effect> = Vec::new();
        let current = self.current_workspace;
        let fullscreen_window = self.workspace_at(current).get_fullscreen_window();
        if let Some(fs) = fullscreen_window {
            if fs != window && self.workspace_at(current).is_window_mapped(fs) {
                assert(effect_views(effects@) =~= Seq::empty());
                return effects;
            }
        }
        let previous_focus = self.workspace_at(current).get_focused_window();
        let accepted = self.workspace_mut(current).set_focus(window);
        if accepted {
            if let Some(previous_window) = previous_focus {
                effects.push(
                    Effect::SetBorder {
                        window: previous_window,
                        pixel: self.screen.normal_border_pixel,
                        width: if fullscreen_window == Some(previous_window) {
                            0
                        } else {
                            self.border_width
                        },
                    },
                );
            }
            effects.push(
                Effect::SetBorder {
                    window,
                    pixel: self.screen.focused_border_pixel,
                    width: if fullscreen_window == Some(window) {
                        0
                    } else {
                        self.border_width
                    },
                },
            );
            effects.push(Effect::Focus(window));
            if fullscreen_window == Some(window) {
                effects.push(Effect::Raise(window));
            }
        }
        proof {
            assert(effect_views(effects@) =~= old(self)@.set_focus(window).effects);
            lemma_with_workspace_wf(
                old(self)@,
                current as int,
                old(self)@.workspace().set_focus(window),
            );
            assert(self@ =~= old(self)@.set_focus(window).state);
        }
        effects
    }

    /// The workspace of `window` according to the reverse index.
    pub fn window_workspace(&self, window: Window) -> (workspace: Option<usize>)
        ensures
            workspace == self@.window_workspace(window),
    {
        match self.window_to_workspace.get(&window.id) {
            Some(id) => Some(*id),
            None => None,
        }
    }

    /// Whether `window` is the fullscreen window of its workspace.
    pub fn is_window_fullscreen(&self, window: Window) -> (fullscreen: bool)
        ensures
            fullscreen == self@.is_window_fullscreen(window),
    {
        match self.window_workspace(window) {
            Some(id) => {
                if id < self.workspaces.len() {
                    self.workspace_at(id).get_fullscreen_window() == Some(window)
                } else {
                    false
                }
            },
            None => false,
        }
    }

    /// The managed windows, ordered by workspace and then by identifier.
    pub fn managed_windows_sorted(&self) -> (windows: Vec<Window>)
        requires
            self@.wf(),
        ensures
            windows@ == managed_sorted(self@.index),
            forall|i: int|
                0 <= i < windows@.len() ==> self@.index.contains_key((#[trigger] windows@[i]).id),
    {
        let mut entries: Vec<Entry> = Vec::new();
        let mut ws: usize = 0;
        while ws < self.workspaces.len()
            invariant
                ws <= self.workspaces@.len(),
                self@.wf(),
                strictly_sorted(entries@),
                forall|e: Entry|
                    entries@.contains(e) <==> self@.index.contains_key(e.1) && self@.index[e.1]
                        == e.0 && e.0 < ws,
            decreases self.workspaces@.len() - ws,
        {
            let clients = self.workspace_at(ws).iter_clients();
            let mut k: usize = 0;
            while k < clients.len()
                invariant
                    k <= clients@.len(),
                    ws < self.workspaces@.len(),
                    clients@ == self@.workspaces[ws as int].clients,
                    self@.wf(),
                    strictly_sorted(entries@),
                    forall|e: Entry|
                        entries@.contains(e) <==> self@.index.contains_key(e.1)
                            && self@.index[e.1] == e.0 && (e.0 < ws || (e.0 == ws && exists|j: int|
                            0 <= j < k && (#[trigger] clients@[j]).window.id == e.1)),
                decreases clients@.len() - k,
            {
                let window = clients[k].window();
                let ghost before = entries@;
                if self.window_workspace(window) == Some(ws) {
                    insert_sorted(&mut entries, (ws, window.resource_id()));
                }
                proof {
                    assert forall|e: Entry|
                        entries@.contains(e) <==> self@.index.contains_key(e.1)
                            && self@.index[e.1] == e.0 && (e.0 < ws || (e.0 == ws && exists|j: int|
                            0 <= j < k + 1 && (#[trigger] clients@[j]).window.id == e.1)) by {
                        if e.0 == ws && self@.index.contains_key(e.1) && self@.index[e.1] == e.0 {
                            if exists|j: int|
                                0 <= j < k + 1 && (#[trigger] clients@[j]).window.id == e.1 {
                                let j = choose|j: int|
                                    0 <= j < k + 1 && (#[trigger] clients@[j]).window.id == e.1;
                                if j == k {
                                    assert(e == (ws, window.id));
                                } else {
                                    assert(before.contains(e));
                                }
                            }
                            if entries@.contains(e) {
                                if before.contains(e) {
                                    let j = choose|j: int|
                                        0 <= j < k && (#[trigger] clients@[j]).window.id == e.1;
                                    assert(clients@[j].window.id == e.1);
                                } else {
                                    assert(clients@[k as int].window.id == e.1);
                                }
                            }
                        }
                    }
                }
                k = k + 1;
            }
            proof {
                assert forall|e: Entry|
                    entries@.contains(e) <==> self@.index.contains_key(e.1) && self@.index[e.1]
                        == e.0 && e.0 < ws + 1 by {
                    if self@.index.contains_key(e.1) && self@.index[e.1] == e.0 && e.0 == ws {
                        let w = Window { id: e.1 };
                        let workspace = self@.workspaces[ws as int];
                        assert(workspace.contains(w));
                        let p = workspace.position(w);
                        assert(clients@[p].window.id == e.1);
                    }
                }
            }
            ws = ws + 1;
        }
        proof {
            assert(lists(entries@, managed_entries(self@.index)));
            lemma_is_listing(entries@, managed_entries(self@.index));
            assert forall|i: int| 0 <= i < entries@.len() implies self@.index.contains_key(
                (#[trigger] entries@[i]).1,
            ) by {
                assert(entries@.contains(entries@[i]));
            }
        }
        entry_windows(&entries)
    }

    /// The docks, ordered by identifier.
    fn dock_windows_sorted(&self) -> (windows: Vec<Window>)
        ensures
            windows@ == docks_sorted(self@.docks),
    {
        let mut entries: Vec<Entry> = Vec::new();
        let mut i: usize = 0;
        while i < self.dock_windows.len()
            invariant
                i <= self.dock_windows@.len(),
                strictly_sorted(entries@),
                forall|e: Entry|
                    entries@.contains(e) <==> e.0 == 0 && exists|j: int|
                        0 <= j < i && #[trigger] self.dock_windows@[j] == (Window { id: e.1 }),
            decreases self.dock_windows@.len() - i,
        {
            let ghost before = entries@;
            let dock = self.dock_windows[i];
            insert_sorted(&mut entries, (0, dock.resource_id()));
            proof {
                assert forall|e: Entry|
                    entries@.contains(e) <==> e.0 == 0 && exists|j: int|
                        0 <= j < i + 1 && #[trigger] self.dock_windows@[j] == (Window {
                            id: e.1,
                        }) by {
                    if e.0 == 0 && exists|j: int|
                        0 <= j < i + 1 && #[trigger] self.dock_windows@[j] == (Window { id: e.1 }) {
                        let j = choose|j: int|
                            0 <= j < i + 1 && #[trigger] self.dock_windows@[j] == (Window {
                                id: e.1,
                            });
                        if j < i {
                            assert(before.contains(e));
                        } else {
                            assert(e == (0usize, dock.id));
                        }
                    }
                    if entries@.contains(e) {
                        if before.contains(e) {
                            let j = choose|j: int|
                                0 <= j < i && #[trigger] self.dock_windows@[j] == (Window {
                                    id: e.1,
                                });
                            assert(self.dock_windows@[j] == (Window { id: e.1 }));
                        } else {
                            assert(self.dock_windows@[i as int] == (Window { id: e.1 }));
                        }
                    }
                }
            }
            i = i + 1;
        }
        proof {
            assert forall|e: Entry| entries@.contains(e) <==> dock_entries(self@.docks).contains(
                e,
            ) by {
                let w = Window { id: e.1 };
                if e.0 == 0 && self@.docks.contains(w) {
                    let j = choose|j: int| 0 <= j < self@.docks.len() && self@.docks[j] == w;
                    assert(self.dock_windows@[j] == w);
                }
            }
            lemma_is_listing(entries@, dock_entries(self@.docks));
        }
        entry_windows(&entries)
    }

    /// The windows for the client list: the managed windows by workspace and
    /// identifier, then the docks by identifier.
    pub fn client_list_windows(&self) -> (windows: Vec<Window>)
        requires
            self@.wf(),
        ensures
            windows@ == self@.client_list(),
    {
        let mut out = self.managed_windows_sorted();
        let mut docks = self.dock_windows_sorted();
        out.append(&mut docks);
        out
    }

    /// Whether a dock has the identifier `id`.
    fn has_dock(&self, id: u32) -> (present: bool)
        ensures
            present == self@.has_dock(id),
    {
        let mut i: usize = 0;
        while i < self.dock_windows.len()
            invariant
                i <= self.dock_windows@.len(),
                forall|j: int| 0 <= j < i ==> (#[trigger] self.dock_windows@[j]).id != id,
            decreases self.dock_windows@.len() - i,
        {
            if self.dock_windows[i].resource_id() == id {
                assert(self@.docks[i as int].id == id);
                return true;
            }
            i = i + 1;
        }
        false
    }

    /// How the state tracks `window`.
    fn tracked_window_type(&self, window: Window) -> (kind: WindowType)
        ensures
            kind == self@.tracked_window_type(window),
    {
        if self.has_dock(window.resource_id()) {
            return WindowType::Dock;
        }
        if self.window_workspace(window).is_some() {
            return WindowType::Managed;
        }
        WindowType::Unmanaged
    }

    /// Focuses the focused window of the workspace on screen anew.
    fn reassert_focus(&mut self) -> (effects: Vec<Effect>)
        requires
            old(self)@.wf(),
        ensures
            final(self)@.wf(),
            final(self)@ == old(self)@.reassert_focus().state,
            effect_views(effects@) == old(self)@.reassert_focus().effects,
    {
        match self.focused_window() {
            Some(focus) => self.set_focus(focus),
            None => {
                let effects: Vec<Effect> = Vec::new();
                assert(effect_views(effects@) =~= Seq::empty());
                effects
            },
        }
    }

    /// Uses the next registered layout and lays out the workspace on screen.
    fn cycle_layout(&mut self) -> (effects: Vec<Effect>)
        requires
            old(self)@.wf(),
        ensures
            final(self)@.wf(),
            final(self)@ == old(self)@.cycle_layout().state,
            effect_views(effects@) == old(self)@.cycle_layout().effects,
    {
        self.layout_manager.cycle_layout();
        self.configure_windows(self.current_workspace)
    }

    /// Turns fullscreen on or off for the focused window. Turning it on
    /// raises the window; either way the workspace is laid out and the focus
    /// asserted.
    pub fn toggle_fullscreen(&mut self) -> (effects: Vec<Effect>)
        requires
            old(self)@.wf(),
        ensures
            final(self)@.wf(),
            final(self)@ == old(self)@.toggle_fullscreen().state,
            effect_views(effects@) == old(self)@.toggle_fullscreen().effects,
    {
        let mut effects: Vec<Effect> = Vec::new();
        let current = self.current_workspace;
        let focused = match self.workspace_at(current).get_focused_window() {
            Some(focused) => focused,
            None => {
                assert(effect_views(effects@) =~= Seq::empty());
                return effects;
            },
        };
        let prev_fullscreen = self.workspace_at(current).get_fullscreen_window();
        let toggle_off = prev_fullscreen == Some(focused);
        proof {
            lemma_marks_wf(self@.workspace(), focused, 1);
        }
        if toggle_off {
            self.workspace_mut(current).clear_fullscreen();
        } else {
            self.workspace_mut(current).set_fullscreen(focused);
            push_effect(&mut effects, Effect::Raise(focused));
        }
        proof {
            lemma_with_workspace_wf(old(self)@, current as int, self@.workspace());
            assert(effect_views(effects@) =~= if toggle_off {
                Seq::empty()
            } else {
                seq![Effect::Raise(focused)@]
            });
        }
        let layout = self.configure_windows(current);
        extend_effects(&mut effects, layout);
        let focus = self.set_focus(focused);
        extend_effects(&mut effects, focus);
        effects
    }

    /// Sets the mapped flag of each of `windows` on workspace `id`, in turn.
    fn set_all_mapped(&mut self, id: usize, windows: &Vec<Window>, mapped: bool)
        requires
            old(self)@.wf(),
            id < NUM_WORKSPACES,
        ensures
            final(self)@.wf(),
            final(self)@ == old(self)@.with_workspace(
                id as int,
                set_each_mapped(old(self)@.workspaces[id as int], windows@, mapped),
            ),
            final(self)@.workspaces[id as int].windows() == old(self)@.workspaces[id as int].windows(),
    {
        let mut i: usize = 0;
        assert(windows@.take(0) =~= Seq::empty());
        assert(self@ =~= old(self)@.with_workspace(id as int, old(self)@.workspaces[id as int]));
        while i < windows.len()
            invariant
                i <= windows@.len(),
                id < NUM_WORKSPACES,
                old(self)@.wf(),
                self@.wf(),
                self@ == old(self)@.with_workspace(
                    id as int,
                    set_each_mapped(
                        old(self)@.workspaces[id as int],
                        windows@.take(i as int),
                        mapped,
                    ),
                ),
                self@.workspaces[id as int].windows() == old(self)@.workspaces[id as int].windows(),
            decreases windows@.len() - i,
        {
            let ghost before = self@;
            proof {
                assert(windows@.take(i + 1).drop_last() =~= windows@.take(i as int));
                lemma_set_client_mapped(before.workspaces[id as int], windows@[i as int], mapped);
            }
            self.workspace_mut(id).set_client_mapped(windows[i], mapped);
            proof {
                lemma_with_workspace_wf(before, id as int, self@.workspaces[id as int]);
                assert(self@ =~= old(self)@.with_workspace(
                    id as int,
                    set_each_mapped(
                        old(self)@.workspaces[id as int],
                        windows@.take(i + 1),
                        mapped,
                    ),
                ));
            }
            i = i + 1;
        }
        assert(windows@.take(windows@.len() as int) =~= windows@);
    }

    /// Puts the workspace with the number `workspace_id` on screen, whether
    /// or not it is there already. Its effects unmap every client of the
    /// workspace that leaves the screen, if one does, then map every client
    /// of the one that is shown, lay it out and assert its focus. Nothing
    /// happens if there is no such workspace.
    pub fn show_workspace(&mut self, workspace_id: usize) -> (effects: Vec<Effect>)
        requires
            old(self)@.wf(),
        ensures
            final(self)@.wf(),
            final(self)@ == old(self)@.show_workspace(workspace_id).state,
            effect_views(effects@) == old(self)@.show_workspace(workspace_id).effects,
            workspace_id >= NUM_WORKSPACES ==> effects@.len() == 0 && final(self)@ == old(self)@,
            workspace_id < NUM_WORKSPACES ==> final(self)@.current == workspace_id,
    {
        let mut effects: Vec<Effect> = Vec::new();
        assert(effect_views(effects@) =~= Seq::empty());
        if workspace_id >= NUM_WORKSPACES {
            return effects;
        }
        if self.current_workspace != workspace_id {
            let old_workspace_id = self.current_workspace;
            let old_windows = self.workspace_at(old_workspace_id).iter_windows();
            self.set_all_mapped(old_workspace_id, &old_windows, false);
            extend_effects(&mut effects, unmap_all(&old_windows));
        }
        assert(effect_views(effects@) =~= unmap_effects(
            if old(self)@.current == workspace_id {
                Seq::empty()
            } else {
                old(self)@.workspace().windows()
            },
        ));

        self.current_workspace = workspace_id;
        let new_windows = self.workspace_at(workspace_id).iter_windows();
        self.set_all_mapped(workspace_id, &new_windows, true);
        extend_effects(&mut effects, map_all(&new_windows));

        let layout = self.configure_windows(workspace_id);
        extend_effects(&mut effects, layout);
        let focus = self.reassert_focus();
        extend_effects(&mut effects, focus);
        proof {
            assert(effect_views(effects@) =~= old(self)@.show_workspace(workspace_id).effects);
            crate::state::laws::lemma_show_workspace_current(old(self)@, workspace_id);
        }
        effects
    }

    /// Switches to the workspace with the number `new_workspace_id`. Its
    /// effects unmap every client of the workspace that leaves the screen,
    /// then map every client of the one that enters, lay it out and assert
    /// its focus. Nothing happens if that workspace is on screen already or
    /// does not exist.
    pub fn go_to_workspace(&mut self, new_workspace_id: usize) -> (effects: Vec<Effect>)
        requires
            old(self)@.wf(),
        ensures
            final(self)@.wf(),
            final(self)@ == old(self)@.go_to_workspace(new_workspace_id).state,
            effect_views(effects@) == old(self)@.go_to_workspace(new_workspace_id).effects,
            new_workspace_id == old(self)@.current || new_workspace_id >= NUM_WORKSPACES
                ==> effects@.len() == 0 && final(self)@ == old(self)@,
    {
        if self.current_workspace == new_workspace_id {
            let effects: Vec<Effect> = Vec::new();
            assert(effect_views(effects@) =~= Seq::empty());
            return effects;
        }
        self.show_workspace(new_workspace_id)
    }

    /// Focuses `window`, switching to its workspace first if need be. The
    /// reverse index says which workspace that is, or `desktop_hint` if the
    /// index does not know the window. Nothing happens while the workspace on
    /// screen has a fullscreen window.
    pub fn focus_window(&mut self, window: Window, desktop_hint: Option<usize>) -> (effects: Vec<
        Effect,
    >)
        requires
            old(self)@.wf(),
        ensures
            final(self)@.wf(),
            final(self)@ == old(self)@.focus_window(window, desktop_hint).state,
            effect_views(effects@) == old(self)@.focus_window(window, desktop_hint).effects,
    {
        let mut effects: Vec<Effect> = Vec::new();
        let workspace_id = match self.window_workspace(window) {
            Some(id) => Some(id),
            None => desktop_hint,
        };
        if self.workspace_at(self.current_workspace).get_fullscreen_window().is_some() {
            assert(effect_views(effects@) =~= Seq::empty());
            return effects;
        }
        let workspace_id = match workspace_id {
            Some(id) => id,
            None => {
                assert(effect_views(effects@) =~= Seq::empty());
                return effects;
            },
        };
        if workspace_id < NUM_WORKSPACES && workspace_id != self.current_workspace {
            let switch = self.go_to_workspace(workspace_id);
            extend_effects(&mut effects, switch);
        }
        let focus = self.set_focus(window);
        extend_effects(&mut effects, focus);
        proof {
            assert(effect_views(effects@) =~= old(self)@.focus_window(window, desktop_hint).effects);
        }
        effects
    }

    /// Sends the focused window to the workspace with the number
    /// `workspace_id`, where it waits unmapped. Its effects unmap the window,
    /// reset its border, lay out the workspace on screen and assert its focus.
    /// Nothing happens if that workspace is on screen or does not exist, or
    /// without a focused window.
    pub fn send_to_workspace(&mut self, workspace_id: usize) -> (effects: Vec<Effect>)
        requires
            old(self)@.wf(),
        ensures
            final(self)@.wf(),
            final(self)@ == old(self)@.send_to_workspace(workspace_id).state,
            effect_views(effects@) == old(self)@.send_to_workspace(workspace_id).effects,
    {
        let mut effects: Vec<Effect> = Vec::new();
        if workspace_id >= NUM_WORKSPACES || workspace_id == self.current_workspace {
            assert(effect_views(effects@) =~= Seq::empty());
            return effects;
        }
        let current = self.current_workspace;
        let ghost before = self@;
        proof {
            if let Some(f) = before.workspace().focus {
                lemma_remove_at(before.workspace(), f as int);
            }
        }
        let window_to_send = match self.workspace_mut(current).removed_focused_window() {
            Some(window) => window,
            None => {
                assert(effect_views(effects@) =~= Seq::empty());
                assert(self@ =~= before);
                return effects;
            },
        };
        let ghost taken = self@;
        proof {
            let target = taken.workspaces[workspace_id as int];
            assert(target == before.workspaces[workspace_id as int]);
            assert(target.wf());
        }
        let target = self.workspace_mut(workspace_id);
        target.push_window(window_to_send);
        target.set_client_mapped(window_to_send, false);
        self.window_to_workspace.insert(window_to_send.id, workspace_id);
        proof {
            let pushed = taken.workspaces[workspace_id as int].push_window(window_to_send);
            lemma_members(taken.workspaces[workspace_id as int], window_to_send, false);
            lemma_set_client_mapped(pushed, window_to_send, false);
            let after = self@;
            assert forall|id: u32| #[trigger] after.index.contains_key(id) implies after.index[id]
                < NUM_WORKSPACES && after.workspaces[after.index[id] as int].contains(
                Window { id },
            ) by {
                if id != window_to_send.id {
                    assert(before.index.contains_key(id));
                    let w = Window { id };
                    assert(before.workspaces[before.index[id] as int].contains(w));
                }
            }
            assert forall|i: int| 0 <= i < after.workspaces.len() implies (
            #[trigger] after.workspaces[i]).wf() by {
                if i != workspace_id && i != current {
                    assert(after.workspaces[i] == before.workspaces[i]);
                }
            }
            lemma_members(pushed, window_to_send, false);
            assert(before.workspaces[current as int].contains(window_to_send));
            assert forall|i: int, x: Window|
                0 <= i < after.workspaces.len() && #[trigger] after.workspaces[i].contains(
                    x,
                ) implies after.index.contains_key(x.id) && after.index[x.id] == i by {
                if i == workspace_id {
                    if x != window_to_send {
                        assert(before.workspaces[i].contains(x));
                    }
                } else if i == current {
                    assert(before.workspaces[i].contains(x));
                } else {
                    assert(after.workspaces[i] == before.workspaces[i]);
                    assert(before.workspaces[i].contains(x));
                    if x.id == window_to_send.id {
                        assert(x == window_to_send);
                    }
                }
            }
            assert forall|d: int| 0 <= d < after.docks.len() implies !after.index.contains_key(
                (#[trigger] after.docks[d]).id,
            ) by {
                assert(!before.index.contains_key(before.docks[d].id));
                assert(before.index.contains_key(window_to_send.id));
            }
        }
        push_effect(&mut effects, Effect::Unmap(window_to_send));
        push_effect(
            &mut effects,
            Effect::SetBorder {
                window: window_to_send,
                pixel: self.screen.normal_border_pixel,
                width: self.border_width,
            },
        );
        let layout = self.configure_windows(current);
        extend_effects(&mut effects, layout);
        let focus = self.reassert_focus();
        extend_effects(&mut effects, focus);
        proof {
            assert(effect_views(effects@) =~= old(self)@.send_to_workspace(workspace_id).effects);
        }
        effects
    }

    /// Adds `increment` to the weight of the focused client, as far as a
    /// `u32` goes, and lays out the workspace on screen.
    pub fn increase_window_weight(&mut self, increment: u32) -> (effects: Vec<Effect>)
        requires
            old(self)@.wf(),
        ensures
            final(self)@.wf(),
            final(self)@ == old(self)@.increase_window_weight(increment).state,
            effect_views(effects@) == old(self)@.increase_window_weight(increment).effects,
    {
        let current = self.current_workspace;
        proof {
            if let Some(f) = self@.workspace().focus {
                lemma_marks_wf(
                    self@.workspace(),
                    Window { id: 0 },
                    self@.workspace().clients[f as int].heavier(increment).size,
                );
            }
        }
        if self.workspace_mut(current).increase_focused_size(increment) {
            proof {
                lemma_with_workspace_wf(old(self)@, current as int, self@.workspace());
            }
            return self.configure_windows(current);
        }
        let effects: Vec<Effect> = Vec::new();
        assert(effect_views(effects@) =~= Seq::empty());
        assert(self@ =~= old(self)@);
        effects
    }

    /// Takes `increment` from the weight of the focused client, leaving at
    /// least one, and lays out the workspace on screen.
    pub fn decrease_window_weight(&mut self, increment: u32) -> (effects: Vec<Effect>)
        requires
            old(self)@.wf(),
        ensures
            final(self)@.wf(),
            final(self)@ == old(self)@.decrease_window_weight(increment).state,
            effect_views(effects@) == old(self)@.decrease_window_weight(increment).effects,
    {
        let current = self.current_workspace;
        proof {
            if let Some(f) = self@.workspace().focus {
                lemma_marks_wf(
                    self@.workspace(),
                    Window { id: 0 },
                    self@.workspace().clients[f as int].lighter(increment).size,
                );
            }
        }
        if self.workspace_mut(current).decrease_focused_size(increment) {
            proof {
                lemma_with_workspace_wf(old(self)@, current as int, self@.workspace());
            }
            return self.configure_windows(current);
        }
        let effects: Vec<Effect> = Vec::new();
        assert(effect_views(effects@) =~= Seq::empty());
        assert(self@ =~= old(self)@);
        effects
    }

    /// Widens the gap by `increment` and lays out the workspace on screen.
    pub fn increase_window_gap(&mut self, increment: u32) -> (effects: Vec<Effect>)
        requires
            old(self)@.wf(),
            old(self)@.window_gap + increment <= u32::MAX,
        ensures
            final(self)@.wf(),
            final(self)@ == old(self)@.increase_window_gap(increment).state,
            effect_views(effects@) == old(self)@.increase_window_gap(increment).effects,
    {
        self.window_gap = self.window_gap + increment;
        self.configure_windows(self.current_workspace)
    }

    /// Narrows the gap by `decrement`, down to zero, and lays out the
    /// workspace on screen. Nothing happens if the gap stays as it is.
    pub fn decrease_window_gap(&mut self, decrement: u32) -> (effects: Vec<Effect>)
        requires
            old(self)@.wf(),
        ensures
            final(self)@.wf(),
            final(self)@ == old(self)@.decrease_window_gap(decrement).state,
            effect_views(effects@) == old(self)@.decrease_window_gap(decrement).effects,
    {
        let new_gap = self.window_gap.saturating_sub(decrement);
        if new_gap == self.window_gap {
            let effects: Vec<Effect> = Vec::new();
            assert(effect_views(effects@) =~= Seq::empty());
            return effects;
        }
        self.window_gap = new_gap;
        self.configure_windows(self.current_workspace)
    }

    /// Moves the focus to the next mapped window, forwards for a positive
    /// `direction` and backwards for a negative one.
    pub fn shift_focus(&mut self, direction: isize) -> (effects: Vec<Effect>)
        requires
            old(self)@.wf(),
        ensures
            final(self)@.wf(),
            final(self)@ == old(self)@.shift_focus(direction as int).state,
            effect_views(effects@) == old(self)@.shift_focus(direction as int).effects,
    {
        match self.workspace_at(self.current_workspace).next_mapped_window(direction) {
            Some(next_focus) => self.set_focus(next_focus),
            None => {
                let effects: Vec<Effect> = Vec::new();
                assert(effect_views(effects@) =~= Seq::empty());
                effects
            },
        }
    }

    /// Exchanges the focused window with the next mapped one in a direction
    /// and lays out the workspace. Nothing happens while the workspace has a
    /// fullscreen window.
    pub fn swap_window(&mut self, direction: isize) -> (effects: Vec<Effect>)
        requires
            old(self)@.wf(),
        ensures
            final(self)@.wf(),
            final(self)@ == old(self)@.swap_window(direction as int).state,
            effect_views(effects@) == old(self)@.swap_window(direction as int).effects,
    {
        let current = self.current_workspace;
        let effects: Vec<Effect> = Vec::new();
        assert(effect_views(effects@) =~= Seq::empty());
        if self.workspace_at(current).get_fullscreen_window().is_some() {
            return effects;
        }
        let next_window = match self.workspace_at(current).next_mapped_window(direction) {
            Some(next_window) => next_window,
            None => {
                return effects;
            },
        };
        let focus = match self.workspace_at(current).get_focused_window() {
            Some(focus) => focus,
            None => {
                return effects;
            },
        };
        proof {
            lemma_swap_windows(self@.workspace(), focus, next_window);
        }
        self.workspace_mut(current).swap_windows(focus, next_window);
        proof {
            lemma_with_workspace_wf(old(self)@, current as int, self@.workspace());
        }
        self.configure_windows(current)
    }

    /// A window asks to be mapped. An unmanaged window is mapped and nothing
    /// else; a dock joins the docks; a managed window becomes a client of the
    /// workspace on screen. A window that was tracked otherwise before, as a
    /// dock or on another workspace, is tracked that way no longer.
    pub fn on_map_request(&mut self, window: Window, window_type: WindowType) -> (effects: Vec<
        Effect,
    >)
        requires
            old(self)@.wf(),
        ensures
            final(self)@.wf(),
            final(self)@ == old(self)@.on_map_request(window, window_type).state,
            effect_views(effects@) == old(self)@.on_map_request(window, window_type).effects,
            final(self)@.current == old(self)@.current,
            window_type is Managed ==> final(self)@.window_workspace(window) == Some(
                old(self)@.current,
            ) && final(self)@.workspace().is_mapped(window) && !final(self)@.has_dock(window.id),
            window_type is Dock ==> final(self)@.has_dock(window.id),
            window_type is Dock ==> final(self)@.window_workspace(window) is None,
    {
        proof {
            crate::state::laws::lemma_map_request_tracks(old(self)@, window, window_type);
        }
        match window_type {
            WindowType::Unmanaged => {
                let mut effects: Vec<Effect> = Vec::new();
                effects.push(Effect::MapWindow(window));
                assert(effect_views(effects@) =~= seq![Effect::MapWindow(window)@]);
                effects
            },
            WindowType::Dock => self.handle_map_request_dock(window),
            WindowType::Managed => self.handle_map_request_managed(window),
        }
    }

    /// Takes `window` out as a managed window: its client out of the
    /// workspace that the reverse index gives for it, and its entry out of the
    /// index.
    fn untrack_client(&mut self, window: Window)
        requires
            old(self)@.wf(),
        ensures
            final(self)@.wf(),
            final(self)@ == old(self)@.without_client(window),
    {
        proof {
            crate::state::laws::lemma_without_client(self@, window);
        }
        if let Some(workspace_id) = self.window_to_workspace.remove(&window.id) {
            if workspace_id < self.workspaces.len() {
                self.workspace_mut(workspace_id).remove_client(window);
            }
        }
    }

    /// Takes `window` out of the docks.
    fn untrack_dock(&mut self, window: Window)
        requires
            old(self)@.wf(),
        ensures
            final(self)@.wf(),
            final(self)@ == old(self)@.without_dock_window(window),
    {
        let window_id = window.resource_id();
        let mut kept: Vec<Window> = Vec::new();
        let mut i: usize = 0;
        assert(self.dock_windows@.take(0) =~= Seq::empty());
        while i < self.dock_windows.len()
            invariant
                i <= self.dock_windows@.len(),
                self@ == old(self)@,
                kept@ == without_dock(self.dock_windows@.take(i as int), window_id),
            decreases self.dock_windows@.len() - i,
        {
            assert(self.dock_windows@.take(i + 1).drop_last() =~= self.dock_windows@.take(
                i as int,
            ));
            if self.dock_windows[i].resource_id() != window_id {
                kept.push(self.dock_windows[i]);
            }
            i = i + 1;
        }
        proof {
            assert(self.dock_windows@.take(self.dock_windows@.len() as int) =~= self.dock_windows@);
            crate::state::laws::lemma_without_dock_window(self@, window);
        }
        self.dock_windows = kept;
    }

    /// Clears the way for `window` as a client of the workspace with the
    /// number `workspace_id`: takes it out of the docks, and out of any other
    /// workspace on which it is managed.
    fn clear_for(&mut self, window: Window, workspace_id: usize)
        requires
            old(self)@.wf(),
            workspace_id < NUM_WORKSPACES,
        ensures
            final(self)@.wf(),
            final(self)@ == old(self)@.cleared_for(window, workspace_id),
    {
        match self.window_workspace(window) {
            Some(other) => {
                if other != workspace_id {
                    self.untrack_client(window);
                }
            },
            None => {},
        }
        self.untrack_dock(window);
    }

    /// Lists `window` as a dock and as nothing else: if it was a managed
    /// window it is one no longer, and it joins the docks unless it is among
    /// them already.
    pub fn track_startup_dock(&mut self, window: Window)
        requires
            old(self)@.wf(),
        ensures
            final(self)@.wf(),
            final(self)@ == old(self)@.with_dock(window),
            final(self)@.has_dock(window.id),
            final(self)@.window_workspace(window) is None,
    {
        proof {
            crate::state::laws::lemma_with_dock(self@, window);
        }
        self.untrack_client(window);
        if !self.has_dock(window.resource_id()) {
            self.dock_windows.push(window);
        }
    }

    fn handle_map_request_dock(&mut self, window: Window) -> (effects: Vec<Effect>)
        requires
            old(self)@.wf(),
        ensures
            final(self)@.wf(),
            final(self)@ == old(self)@.map_dock(window).state,
            effect_views(effects@) == old(self)@.map_dock(window).effects,
    {
        let mut effects: Vec<Effect> = Vec::new();
        self.track_startup_dock(window);
        push_effect(&mut effects, Effect::MapWindow(window));
        let docks = self.configure_dock_windows();
        extend_effects(&mut effects, docks);
        let layout = self.configure_windows(self.current_workspace);
        extend_effects(&mut effects, layout);
        proof {
            assert(effect_views(effects@) =~= old(self)@.map_dock(window).effects);
        }
        effects
    }

    fn handle_map_request_managed(&mut self, window: Window) -> (effects: Vec<Effect>)
        requires
            old(self)@.wf(),
        ensures
            final(self)@.wf(),
            final(self)@ == old(self)@.map_managed(window).state,
            effect_views(effects@) == old(self)@.map_managed(window).effects,
    {
        let mut effects: Vec<Effect> = Vec::new();
        let current = self.current_workspace;
        proof {
            crate::state::laws::lemma_cleared_for(self@, window, current);
        }
        self.clear_for(window, current);
        let ghost cleared = self@;
        proof {
            lemma_marks_wf(cleared.workspace(), window, 1);
            lemma_members(cleared.workspace(), window, true);
        }
        if !self.workspace_mut(current).mark_client_mapped(window) {
            self.workspace_mut(current).push_window(window);
        }
        self.window_to_workspace.insert(window.id, current);
        proof {
            assert(self@ =~= old(self)@.with_managed(window));
            crate::state::laws::lemma_placed(cleared, window, current, self@.workspace());
        }
        push_effect(&mut effects, Effect::MapWindow(window));
        let pinned = match self.workspace_at(current).get_fullscreen_window() {
            Some(fs) => self.workspace_at(current).is_window_mapped(fs),
            None => false,
        };
        if pinned {
            let layout = self.configure_windows(current);
            extend_effects(&mut effects, layout);
        } else {
            let focus = self.set_focus(window);
            extend_effects(&mut effects, focus);
            let layout = self.configure_windows(current);
            extend_effects(&mut effects, layout);
        }
        proof {
            assert(effect_views(effects@) =~= old(self)@.map_managed(window).effects);
        }
        effects
    }

    /// A window is gone. A dock leaves the docks; a managed window leaves the
    /// reverse index and its workspace. Either way the workspace on screen is
    /// laid out. Nothing happens for a window that the state does not track.
    pub fn on_destroy(&mut self, window: Window) -> (effects: Vec<Effect>)
        requires
            old(self)@.wf(),
        ensures
            final(self)@.wf(),
            final(self)@ == old(self)@.on_destroy(window).state,
            effect_views(effects@) == old(self)@.on_destroy(window).effects,
    {
        match self.tracked_window_type(window) {
            WindowType::Dock => self.handle_destroy_event_dock(window),
            WindowType::Managed => self.handle_destroy_event_managed(window),
            WindowType::Unmanaged => {
                let effects: Vec<Effect> = Vec::new();
                assert(effect_views(effects@) =~= Seq::empty());
                effects
            },
        }
    }

    fn handle_destroy_event_dock(&mut self, window: Window) -> (effects: Vec<Effect>)
        requires
            old(self)@.wf(),
        ensures
            final(self)@.wf(),
            final(self)@ == old(self)@.destroy_dock(window).state,
            effect_views(effects@) == old(self)@.destroy_dock(window).effects,
    {
        self.untrack_dock(window);

        let mut effects: Vec<Effect> = Vec::new();
        assert(effect_views(effects@) =~= Seq::empty());
        if self.dock_windows.len() > 0 {
            let docks = self.configure_dock_windows();
            extend_effects(&mut effects, docks);
        }
        let layout = self.configure_windows(self.current_workspace);
        extend_effects(&mut effects, layout);
        proof {
            assert(effect_views(effects@) =~= old(self)@.destroy_dock(window).effects);
        }
        effects
    }

    fn handle_destroy_event_managed(&mut self, window: Window) -> (effects: Vec<Effect>)
        requires
            old(self)@.wf(),
        ensures
            final(self)@.wf(),
            final(self)@ == old(self)@.destroy_managed(window).state,
            effect_views(effects@) == old(self)@.destroy_managed(window).effects,
    {
        self.untrack_client(window);
        let mut effects: Vec<Effect> = Vec::new();
        assert(effect_views(effects@) =~= Seq::empty());
        let layout = self.configure_windows(self.current_workspace);
        extend_effects(&mut effects, layout);
        let focus = self.reassert_focus();
        extend_effects(&mut effects, focus);
        proof {
            assert(effect_views(effects@) =~= old(self)@.destroy_managed(window).effects);
        }
        effects
    }

    /// A window was unmapped. A managed window is marked as unmapped, and if
    /// it was mapped on the workspace on screen, that workspace is laid out.
    /// Nothing happens for a dock or a window that the state does not track.
    pub fn on_unmap(&mut self, window: Window) -> (effects: Vec<Effect>)
        requires
            old(self)@.wf(),
        ensures
            final(self)@.wf(),
            final(self)@ == old(self)@.on_unmap(window).state,
            effect_views(effects@) == old(self)@.on_unmap(window).effects,
    {
        match self.tracked_window_type(window) {
            WindowType::Managed => self.handle_unmap_event_managed(window),
            _ => {
                let effects: Vec<Effect> = Vec::new();
                assert(effect_views(effects@) =~= Seq::empty());
                effects
            },
        }
    }

    fn handle_unmap_event_managed(&mut self, window: Window) -> (effects: Vec<Effect>)
        requires
            old(self)@.wf(),
        ensures
            final(self)@.wf(),
            final(self)@ == old(self)@.unmap_managed(window).state,
            effect_views(effects@) == old(self)@.unmap_managed(window).effects,
    {
        let effects: Vec<Effect> = Vec::new();
        assert(effect_views(effects@) =~= Seq::empty());
        let workspace_id = match self.window_workspace(window) {
            Some(id) => id,
            None => {
                return effects;
            },
        };
        let mut changed = false;
        if workspace_id < self.workspaces.len() {
            if self.workspace_at(workspace_id).is_window_mapped(window) {
                proof {
                    lemma_set_client_mapped(self@.workspaces[workspace_id as int], window, false);
                }
                self.workspace_mut(workspace_id).set_client_mapped(window, false);
                proof {
                    lemma_with_workspace_wf(
                        old(self)@,
                        workspace_id as int,
                        self@.workspaces[workspace_id as int],
                    );
                }
                changed = true;
            }
        }
        if workspace_id != self.current_workspace {
            return effects;
        }
        if !changed {
            return effects;
        }
        self.configure_windows(self.current_workspace)
    }

    /// What a key-bound action does to the state. Launching a program and
    /// closing a window are not for the state to do: they change nothing here.
    pub fn apply_action(&mut self, action: ActionEvent) -> (effects: Vec<Effect>)
        requires
            old(self)@.wf(),
            action matches ActionEvent::IncreaseWindowGap(n) ==> old(self)@.window_gap + n
                <= u32::MAX,
        ensures
            final(self)@.wf(),
            final(self)@ == old(self)@.apply_action(action).state,
            effect_views(effects@) == old(self)@.apply_action(action).effects,
    {
        reveal(StateView::apply_action);
        match action {
            ActionEvent::NextWindow => self.shift_focus(1),
            ActionEvent::PrevWindow => self.shift_focus(-1),
            ActionEvent::IncreaseWindowWeight(increment) => self.increase_window_weight(increment),
            ActionEvent::DecreaseWindowWeight(increment) => self.decrease_window_weight(increment),
            ActionEvent::SwapLeft => self.swap_window(-1),
            ActionEvent::SwapRight => self.swap_window(1),
            ActionEvent::GoToWorkspace(workspace_id) => self.go_to_workspace(workspace_id),
            ActionEvent::SendToWorkspace(workspace_id) => self.send_to_workspace(workspace_id),
            ActionEvent::IncreaseWindowGap(increment) => self.increase_window_gap(increment),
            ActionEvent::DecreaseWindowGap(increment) => self.decrease_window_gap(increment),
            ActionEvent::ToggleFullscreen => self.toggle_fullscreen(),
            ActionEvent::CycleLayout => self.cycle_layout(),
            _ => {
                let effects: Vec<Effect> = Vec::new();
                assert(effect_views(effects@) =~= Seq::empty());
                effects
            },
        }
    }

    /// Makes `window` a client of the workspace with the number
    /// `workspace_id` and nothing else, if there is such a workspace: if it
    /// was a dock or a client of another workspace, it is one no longer.
    pub fn track_startup_managed(&mut self, window: Window, workspace_id: usize)
        requires
            old(self)@.wf(),
        ensures
            final(self)@.wf(),
            final(self)@ == old(self)@.track_startup_managed(window, workspace_id),
            workspace_id < NUM_WORKSPACES ==> final(self)@.window_workspace(window) == Some(
                workspace_id,
            ),
    {
        if workspace_id < self.workspaces.len() {
            proof {
                crate::state::laws::lemma_cleared_for(self@, window, workspace_id);
            }
            self.clear_for(window, workspace_id);
            let ghost cleared = self@;
            proof {
                lemma_members(cleared.workspaces[workspace_id as int], window, true);
            }
            self.workspace_mut(workspace_id).push_window(window);
            self.window_to_workspace.insert(window.id, workspace_id);
            proof {
                assert(self@ =~= old(self)@.track_startup_managed(window, workspace_id));
                crate::state::laws::lemma_placed(
                    cleared,
                    window,
                    workspace_id,
                    self@.workspaces[workspace_id as int],
                );
            }
        }
    }

    /// Ends the startup: places the docks and, if the workspace that was on
    /// screen before is known and exists, puts it on screen, even if it
    /// counts as being there already. Without such a workspace the state
    /// stays as it is, and only the docks are placed.
    pub fn startup_finalize(&mut self, current_desktop: Option<usize>) -> (effects: Vec<Effect>)
        requires
            old(self)@.wf(),
        ensures
            final(self)@.wf(),
            final(self)@ == old(self)@.startup_finalize(current_desktop).state,
            effect_views(effects@) == old(self)@.startup_finalize(current_desktop).effects,
            current_desktop matches Some(id) ==> (id < NUM_WORKSPACES ==> final(self)@.current
                == id),
            current_desktop matches Some(id) ==> (id >= NUM_WORKSPACES ==> final(self)@ == old(
                self,
            )@),
            current_desktop is None ==> final(self)@ == old(self)@,
    {
        let mut effects: Vec<Effect> = Vec::new();
        assert(effect_views(effects@) =~= Seq::empty());
        if self.dock_windows.len() > 0 {
            let docks = self.configure_dock_windows();
            extend_effects(&mut effects, docks);
        }
        if let Some(workspace_id) = current_desktop {
            let show = self.show_workspace(workspace_id);
            extend_effects(&mut effects, show);
        }
        proof {
            assert(effect_views(effects@) =~= old(self)@.startup_finalize(current_desktop).effects);
        }
        effects
    }
}

/// One `Unmap` per window.
fn unmap_all(windows: &Vec<Window>) -> (effects: Vec<Effect>)
    ensures
        effect_views(effects@) == unmap_effects(windows@),
{
    let mut effects: Vec<Effect> = Vec::new();
    let mut i: usize = 0;
    while i < windows.len()
        invariant
            i <= windows@.len(),
            effects@.len() == i,
            forall|j: int| 0 <= j < i ==> (#[trigger] effects@[j])@ == EffectView::Unmap(windows@[j]),
        decreases windows@.len() - i,
    {
        effects.push(Effect::Unmap(windows[i]));
        i = i + 1;
    }
    assert(effect_views(effects@) =~= unmap_effects(windows@));
    effects
}

/// One `MapWindow` per window.
fn map_all(windows: &Vec<Window>) -> (effects: Vec<Effect>)
    ensures
        effect_views(effects@) == map_effects(windows@),
{
    let mut effects: Vec<Effect> = Vec::new();
    let mut i: usize = 0;
    while i < windows.len()
        invariant
            i <= windows@.len(),
            effects@.len() == i,
            forall|j: int|
                0 <= j < i ==> (#[trigger] effects@[j])@ == EffectView::MapWindow(windows@[j]),
        decreases windows@.len() - i,
    {
        effects.push(Effect::MapWindow(windows[i]));
        i = i + 1;
    }
    assert(effect_views(effects@) =~= map_effects(windows@));
    effects
}

/// What is left of the docks when those with an identifier are taken out:
/// every other dock, in order, and still none twice.
pub proof fn lemma_without_dock(docks: Seq<Window>, id: u32)
    requires
        forall|i: int, j: int|
            0 <= i < j < docks.len() ==> (#[trigger] docks[i]).id != (#[trigger] docks[j]).id,
    ensures
        forall|i: int, j: int|
            0 <= i < j < without_dock(docks, id).len() ==> (#[trigger] without_dock(
                docks,
                id,
            )[i]).id != (#[trigger] without_dock(docks, id)[j]).id,
        forall|i: int|
            0 <= i < without_dock(docks, id).len() ==> docks.contains(
                #[trigger] without_dock(docks, id)[i],
            ) && without_dock(docks, id)[i].id != id,
    decreases docks.len(),
{
    if docks.len() > 0 {
        let init = docks.drop_last();
        lemma_without_dock(init, id);
        let rest = without_dock(init, id);
        let kept = without_dock(docks, id);
        assert forall|i: int| 0 <= i < kept.len() implies docks.contains(#[trigger] kept[i])
            && kept[i].id != id by {
            if i < rest.len() {
                assert(init.contains(rest[i]));
                let k = choose|k: int| 0 <= k < init.len() && init[k] == rest[i];
                assert(docks[k] == rest[i]);
            } else {
                assert(docks[docks.len() - 1] == kept[i]);
            }
        }
        assert forall|i: int, j: int| 0 <= i < j < kept.len() implies (#[trigger] kept[i]).id != (
        #[trigger] kept[j]).id by {
            if j >= rest.len() {
                assert(init.contains(rest[i]));
                let k = choose|k: int| 0 <= k < init.len() && init[k] == rest[i];
                assert(docks[k].id != docks[docks.len() - 1].id);
            }
        }
    }
}

/// A value as an `i32`: itself where it fits, the nearest `i32` where not.
fn clamp_i32(v: i64) -> (c: i32)
    ensures
        c == clamped(v as int),
{
    if v < -0x8000_0000 {
        i32::MIN
    } else if v > 0x7fff_ffff {
        i32::MAX
    } else {
        v as i32
    }
}

/// The mapped clients among `clients`, in their order.
fn mapped_only(clients: Vec<Client>) -> (mapped: Vec<Client>)
    ensures
        mapped@ == mapped_clients(clients@),
{
    let mut mapped: Vec<Client> = Vec::new();
    let mut i: usize = 0;
    assert(clients@.take(0) =~= Seq::empty());
    while i < clients.len()
        invariant
            i <= clients@.len(),
            mapped@ == mapped_clients(clients@.take(i as int)),
        decreases clients@.len() - i,
    {
        assert(clients@.take(i + 1).drop_last() =~= clients@.take(i as int));
        if clients[i].is_mapped() {
            mapped.push(clients[i]);
        }
        i = i + 1;
    }
    assert(clients@.take(clients@.len() as int) =~= clients@);
    mapped
}

/// The weights of `clients`, in their order.
fn sizes(clients: &Vec<Client>) -> (weights: Vec<u32>)
    ensures
        weights@ == weights_of(clients@),
{
    let mut weights: Vec<u32> = Vec::new();
    let mut i: usize = 0;
    while i < clients.len()
        invariant
            i <= clients@.len(),
            weights@.len() == i,
            forall|j: int| 0 <= j < i ==> weights@[j] == clients@[j].size,
        decreases clients@.len() - i,
    {
        weights.push(clients[i].size());
        i = i + 1;
    }
    assert(weights@ =~= weights_of(clients@));
    weights
}

/// The invariant holds on when a workspace gives way to a well-formed one
/// with the same windows.
pub proof fn lemma_with_workspace_wf(state: StateView, i: int, ws: WorkspaceView)
    requires
        state.wf(),
        0 <= i < state.workspaces.len(),
        ws.wf(),
        forall|w: Window| state.workspaces[i].contains(w) == ws.contains(w),
    ensures
        state.with_workspace(i, ws).wf(),
{
    let after = state.with_workspace(i, ws);
    assert forall|id: u32| #[trigger] after.index.contains_key(id) implies after.index[id]
        < NUM_WORKSPACES && after.workspaces[after.index[id] as int].contains(Window { id }) by {
        assert(state.index.contains_key(id));
    }
    crate::state::laws::lemma_with_workspace_same(state, i, ws);
    crate::state::laws::lemma_same_exact(state, after);
}

} // verus!
