//! What holds of the state and its operations, whatever the inputs.

use crate::config::NUM_WORKSPACES;
use crate::effect::{EffectView, Window};
use crate::key_mapping::ActionEvent;
use crate::state::lemma_with_workspace_wf;
use crate::state::model::{map_effects, set_each_mapped, unmap_effects, StateView};
use crate::workspace::{
    lemma_marks_wf, lemma_position_of, lemma_set_client_mapped, Client, WorkspaceView,
};
use crate::x11::WindowType;
use vstd::prelude::*;

verus! {

/// The focus of a workspace is on one of its clients.
pub proof fn lemma_focus_is_client(ws: WorkspaceView)
    requires
        ws.wf(),
    ensures
        ws.focus matches Some(f) ==> f < ws.clients.len() && ws.focused_window() == Some(
            ws.clients[f as int].window,
        ),
        ws.focused_window() matches Some(w) ==> ws.contains(w),
{
    if let Some(f) = ws.focus {
        assert(ws.clients[f as int].window == ws.focused_window().unwrap());
    }
}

/// The fullscreen window of a workspace is one of its clients, and it has the
/// focus.
pub proof fn lemma_fullscreen_is_focused_client(ws: WorkspaceView)
    requires
        ws.wf(),
    ensures
        ws.fullscreen matches Some(w) ==> ws.contains(w) && ws.focused_window() == Some(w),
{
    if let Some(w) = ws.fullscreen {
        lemma_position_of(ws, w);
    }
}

/// The reverse index gives every managed window a workspace, and the window
/// is a client of that workspace.
pub proof fn lemma_index_points_to_client(state: StateView, w: Window)
    requires
        state.wf(),
        state.index.contains_key(w.id),
    ensures
        state.window_workspace(w) matches Some(id) && id < NUM_WORKSPACES
            && state.workspaces[id as int].contains(w),
{
}

/// A map request leaves the workspace on screen where it is. After one for
/// a managed window the reverse index lists the window under the workspace
/// on screen, the window is a mapped client of that workspace, and it is no
/// dock. After one for a dock the window is a dock and no managed window.
/// One for an unmanaged window changes nothing.
pub proof fn lemma_map_request_tracks(state: StateView, w: Window, kind: WindowType)
    requires
        state.wf(),
    ensures
        state.on_map_request(w, kind).state.current == state.current,
        kind is Managed ==> {
            let after = state.on_map_request(w, kind).state;
            &&& after.window_workspace(w) == Some(state.current)
            &&& after.workspace().is_mapped(w)
            &&& !after.has_dock(w.id)
        },
        kind is Dock ==> {
            let after = state.on_map_request(w, kind).state;
            &&& after.has_dock(w.id)
            &&& after.window_workspace(w) is None
        },
        kind is Unmanaged ==> state.on_map_request(w, kind).state == state,
{
    if kind is Dock {
        lemma_with_dock(state, w);
    }
    if kind is Managed {
        lemma_cleared_for(state, w, state.current);
        let cleared = state.cleared_for(w, state.current);
        let ws = cleared.workspace();
        lemma_marks_wf(ws, w, 1);
        crate::workspace::lemma_members(ws, w, true);
        let placed_ws = if ws.contains(w) {
            ws.mark_mapped(w)
        } else {
            ws.push_window(w)
        };
        assert(placed_ws.contains(w));
        let p = placed_ws.position(w);
        assert(placed_ws.clients[p].mapped) by {
            if ws.contains(w) {
                crate::workspace::lemma_flag_wf(ws, ws.position(w), true);
            } else {
                assert(placed_ws.clients[ws.clients.len() as int].window == w);
                if p < ws.clients.len() {
                    assert(ws.clients[p].window == w);
                }
            }
        }
        let placed = state.with_managed(w);
        assert(placed.workspace() == placed_ws);
        assert(placed.docks == cleared.docks);
        if StateView::mapped_fullscreen(placed_ws) is None {
            let focused = placed_ws.set_focus(w);
            assert(focused.clients == placed_ws.clients);
            assert(focused.position(w) == p);
        }
    }
}

/// Launching a program and closing a window leave the state as it is and
/// have no effects on its side.
pub proof fn lemma_spawn_and_kill_pass(state: StateView, action: ActionEvent)
    requires
        action is Spawn || action is Kill,
    ensures
        state.apply_action(action).state == state,
        state.apply_action(action).effects == Seq::<EffectView>::empty(),
{
    reveal(StateView::apply_action);
}

/// How often `effect` occurs among `effects`.
pub open spec fn occurrences(effects: Seq<EffectView>, effect: EffectView) -> nat
    decreases effects.len(),
{
    if effects.len() == 0 {
        0
    } else if effects.last() == effect {
        occurrences(effects.drop_last(), effect) + 1
    } else {
        occurrences(effects.drop_last(), effect)
    }
}

/// An effect occurs in two lists put together as often as in both.
pub proof fn lemma_occurrences_add(a: Seq<EffectView>, b: Seq<EffectView>, effect: EffectView)
    ensures
        occurrences(a + b, effect) == occurrences(a, effect) + occurrences(b, effect),
    decreases b.len(),
{
    if b.len() == 0 {
        assert(a + b =~= a);
    } else {
        assert((a + b).drop_last() =~= a + b.drop_last());
        lemma_occurrences_add(a, b.drop_last(), effect);
    }
}

/// An effect that is no member of a list does not occur in it.
pub proof fn lemma_occurrences_absent(effects: Seq<EffectView>, effect: EffectView)
    requires
        forall|i: int| 0 <= i < effects.len() ==> effects[i] != effect,
    ensures
        occurrences(effects, effect) == 0,
    decreases effects.len(),
{
    if effects.len() > 0 {
        lemma_occurrences_absent(effects.drop_last(), effect);
    }
}

/// The effect is one that unmaps or maps a window.
pub open spec fn maps_or_unmaps(effect: EffectView) -> bool {
    effect is Unmap || effect is MapWindow
}

/// Among the effects that unmap each of a list of distinct windows, the one
/// for a window occurs once if the window is in the list, and no map effect
/// occurs; likewise for the effects that map them.
proof fn lemma_occurrences_windows(windows: Seq<Window>, w: Window)
    requires
        forall|i: int, j: int| 0 <= i < j < windows.len() ==> windows[i] != windows[j],
    ensures
        occurrences(unmap_effects(windows), EffectView::Unmap(w)) == if windows.contains(w) {
            1nat
        } else {
            0nat
        },
        occurrences(map_effects(windows), EffectView::MapWindow(w)) == if windows.contains(w) {
            1nat
        } else {
            0nat
        },
        occurrences(unmap_effects(windows), EffectView::MapWindow(w)) == 0,
        occurrences(map_effects(windows), EffectView::Unmap(w)) == 0,
    decreases windows.len(),
{
    if windows.len() > 0 {
        let init = windows.drop_last();
        lemma_occurrences_windows(init, w);
        assert(unmap_effects(windows).drop_last() =~= unmap_effects(init));
        assert(map_effects(windows).drop_last() =~= map_effects(init));
        if windows.last() == w {
            if init.contains(w) {
                let k = choose|k: int| 0 <= k < init.len() && init[k] == w;
                assert(windows[k] != windows[windows.len() - 1]);
            }
            assert(windows[windows.len() - 1] == w);
        } else {
            if windows.contains(w) {
                let k = choose|k: int| 0 <= k < windows.len() && windows[k] == w;
                assert(init[k] == w);
            }
            if init.contains(w) {
                let k = choose|k: int| 0 <= k < init.len() && init[k] == w;
                assert(windows[k] == w);
            }
        }
    }
}

/// Laying out a workspace neither maps nor unmaps a window.
pub proof fn lemma_configure_keeps_mapping(state: StateView, id: usize)
    ensures
        forall|i: int|
            0 <= i < state.configure_windows(id).len() ==> !maps_or_unmaps(
                #[trigger] state.configure_windows(id)[i],
            ),
{
}

/// A change of focus neither maps nor unmaps a window.
pub proof fn lemma_focus_keeps_mapping(state: StateView, w: Window)
    ensures
        forall|i: int|
            0 <= i < state.set_focus(w).effects.len() ==> !maps_or_unmaps(
                #[trigger] state.set_focus(w).effects[i],
            ),
{
}

/// The windows of a well-formed workspace are distinct, and a window is among
/// them exactly if it has a client.
pub proof fn lemma_windows_distinct(ws: WorkspaceView)
    requires
        ws.wf(),
    ensures
        forall|i: int, j: int|
            0 <= i < j < ws.windows().len() ==> ws.windows()[i] != ws.windows()[j],
        forall|w: Window| ws.windows().contains(w) == ws.contains(w),
{
    assert forall|i: int, j: int| 0 <= i < j < ws.windows().len() implies ws.windows()[i]
        != ws.windows()[j] by {
        assert(ws.clients[i].window != ws.clients[j].window);
    }
    assert forall|w: Window| ws.windows().contains(w) == ws.contains(w) by {
        if ws.windows().contains(w) {
            let k = choose|k: int| 0 <= k < ws.windows().len() && ws.windows()[k] == w;
            assert(ws.clients[k].window == w);
        }
        if ws.contains(w) {
            let k = ws.position(w);
            assert(ws.windows()[k] == w);
        }
    }
}

/// Putting a workspace on screen maps each of its clients once, and unmaps
/// each client of the workspace that leaves the screen once, if one leaves.
pub proof fn lemma_show_unmaps_and_maps(state: StateView, id: usize, w: Window)
    requires
        state.wf(),
        id < NUM_WORKSPACES,
    ensures
        occurrences(state.show_workspace(id).effects, EffectView::Unmap(w)) == if id
            != state.current && state.workspace().contains(w) {
            1nat
        } else {
            0nat
        },
        occurrences(state.show_workspace(id).effects, EffectView::MapWindow(w))
            == if state.workspaces[id as int].contains(w) {
            1nat
        } else {
            0nat
        },
{
    let old_windows = if state.current == id {
        Seq::empty()
    } else {
        state.workspace().windows()
    };
    let left = if state.current == id {
        state
    } else {
        state.with_current(set_each_mapped(state.workspace(), old_windows, false))
    };
    let new_windows = left.workspaces[id as int].windows();
    let entered = StateView { current: id, ..left }.with_workspace(
        id as int,
        set_each_mapped(left.workspaces[id as int], new_windows, true),
    );
    let focus = entered.reassert_focus();
    let unmaps = unmap_effects(old_windows);
    let maps = map_effects(new_windows);
    let layout = entered.configure_windows(id);
    assert(left.workspaces[id as int] == state.workspaces[id as int]);
    lemma_windows_distinct(state.workspace());
    lemma_windows_distinct(state.workspaces[id as int]);
    lemma_occurrences_windows(old_windows, w);
    lemma_occurrences_windows(new_windows, w);
    lemma_configure_keeps_mapping(entered, id);
    if let Some(f) = entered.focused_window() {
        lemma_focus_keeps_mapping(entered, f);
    }
    let unmap = EffectView::Unmap(w);
    let map = EffectView::MapWindow(w);
    assert forall|i: int| 0 <= i < layout.len() implies layout[i] != unmap && layout[i] != map by {
        assert(!maps_or_unmaps(layout[i]));
    }
    assert forall|i: int| 0 <= i < focus.effects.len() implies focus.effects[i] != unmap
        && focus.effects[i] != map by {
        assert(!maps_or_unmaps(focus.effects[i]));
    }
    lemma_occurrences_absent(layout, unmap);
    lemma_occurrences_absent(layout, map);
    lemma_occurrences_absent(focus.effects, unmap);
    lemma_occurrences_absent(focus.effects, map);
    lemma_occurrences_add(unmaps, maps, unmap);
    lemma_occurrences_add(unmaps, maps, map);
    lemma_occurrences_add(unmaps + maps, layout, unmap);
    lemma_occurrences_add(unmaps + maps, layout, map);
    lemma_occurrences_add(unmaps + maps + layout, focus.effects, unmap);
    lemma_occurrences_add(unmaps + maps + layout, focus.effects, map);
}

/// Switching to another workspace unmaps each client of the workspace that
/// leaves the screen once and maps each client of the one that enters once:
/// among the effects, the unmapping of a window occurs once if the window was
/// a client of the workspace on screen and not otherwise, and the mapping of
/// a window occurs once if the window is a client of the new workspace and
/// not otherwise.
pub proof fn lemma_switch_unmaps_and_maps(state: StateView, id: usize, w: Window)
    requires
        state.wf(),
        id < NUM_WORKSPACES,
        id != state.current,
    ensures
        occurrences(state.go_to_workspace(id).effects, EffectView::Unmap(w))
            == if state.workspace().contains(w) {
            1nat
        } else {
            0nat
        },
        occurrences(state.go_to_workspace(id).effects, EffectView::MapWindow(w))
            == if state.workspaces[id as int].contains(w) {
            1nat
        } else {
            0nat
        },
{
    lemma_show_unmaps_and_maps(state, id, w);
}

/// The end of the startup. With a workspace to show that exists, that
/// workspace is on screen afterwards, and after the effects that place the
/// docks each of its clients is mapped once. Without one, or with one that
/// does not exist, the state stays as it is and only the docks are placed.
pub proof fn lemma_startup_finalize(state: StateView, hint: Option<usize>, w: Window)
    requires
        state.wf(),
    ensures
        hint matches Some(id) ==> (id < NUM_WORKSPACES ==> {
            &&& state.startup_finalize(hint).state.current == id
            &&& occurrences(state.startup_finalize(hint).effects, EffectView::MapWindow(w))
                == if state.workspaces[id as int].contains(w) {
                1nat
            } else {
                0nat
            }
        }),
        hint is None || hint.unwrap() >= NUM_WORKSPACES ==> {
            &&& state.startup_finalize(hint).state == state
            &&& state.startup_finalize(hint).effects == if state.docks.len() > 0 {
                state.configure_dock_windows()
            } else {
                Seq::empty()
            }
        },
        state.docks.len() > 0 ==> state.startup_finalize(hint).effects.subrange(
            0,
            state.docks.len() as int,
        ) == state.configure_dock_windows(),
{
    let docks = if state.docks.len() > 0 {
        state.configure_dock_windows()
    } else {
        Seq::empty()
    };
    match hint {
        Some(id) => {
            let show = state.show_workspace(id);
            assert((docks + show.effects).subrange(0, docks.len() as int) =~= docks);
            if id < NUM_WORKSPACES {
                lemma_show_unmaps_and_maps(state, id, w);
                lemma_occurrences_absent(docks, EffectView::MapWindow(w));
                lemma_occurrences_add(docks, show.effects, EffectView::MapWindow(w));
            } else {
                assert(docks + show.effects =~= docks);
            }
        },
        None => {
            assert(docks.subrange(0, docks.len() as int) =~= docks);
        },
    }
}

/// Turning fullscreen on for a focused window that is mapped raises the
/// window, lets it cover the screen without a border, raises it again, and
/// then focuses it anew: its border is reset and set to the focused pixel,
/// both at no width, it gets the input focus, and it is raised.
pub proof fn lemma_toggle_on_focuses(state: StateView, w: Window)
    requires
        state.wf(),
        state.focused_window() == Some(w),
        state.workspace().is_mapped(w),
        state.workspace().fullscreen != Some(w),
    ensures
        state.toggle_fullscreen().state.workspace().fullscreen == Some(w),
        state.toggle_fullscreen().state.focused_window() == Some(w),
        state.toggle_fullscreen().effects == seq![
            EffectView::Raise(w),
            EffectView::Configure {
                window: w,
                x: 0,
                y: 0,
                w: state.screen.width,
                h: state.screen.height,
                border: 0,
            },
            EffectView::Raise(w),
            EffectView::SetBorder { window: w, pixel: state.screen.normal_border_pixel, width: 0 },
            EffectView::SetBorder { window: w, pixel: state.screen.focused_border_pixel, width: 0 },
            EffectView::Focus(w),
            EffectView::Raise(w),
        ],
{
    let ws = state.workspace();
    lemma_focus_is_client(ws);
    lemma_marks_wf(ws, w, 1);
    let f = ws.focus.unwrap() as int;
    crate::workspace::lemma_position(ws, f);
    let marked_ws = ws.set_fullscreen(w);
    assert(marked_ws.clients == ws.clients);
    assert(marked_ws.position(w) == ws.position(w));
    assert(marked_ws.is_mapped(w));
    let marked = state.with_current(marked_ws);
    assert(marked.workspace() == marked_ws);
    assert(StateView::mapped_fullscreen(marked_ws) == Some(w));
    assert(marked_ws.focused_window() == Some(w));
    let focus = marked.set_focus(w);
    assert(state.toggle_fullscreen().effects =~= seq![EffectView::Raise(w)]
        + marked.configure_windows(marked.current) + focus.effects);
}

/// While a fullscreen window is mapped, a request to focus another window
/// changes nothing and has no effects.
pub proof fn lemma_fullscreen_pins_focus(state: StateView, w: Window)
    requires
        state.workspace().fullscreen matches Some(fullscreen) && fullscreen != w
            && state.workspace().is_mapped(fullscreen),
    ensures
        state.set_focus(w).state == state,
        state.set_focus(w).effects == Seq::<EffectView>::empty(),
{
}

/// The workspace after the mapped flag of each of its first `k` windows was
/// set: those `k` clients have the flag, and nothing else about the clients
/// has changed. Unmapping does away with a fullscreen mark on one of them;
/// mapping keeps the mark.
pub proof fn lemma_each_mapped_clients(ws: WorkspaceView, k: int, mapped: bool)
    requires
        ws.wf(),
        0 <= k <= ws.clients.len(),
    ensures
        ({
            let after = set_each_mapped(ws, ws.windows().take(k), mapped);
            &&& after.wf()
            &&& after.clients.len() == ws.clients.len()
            &&& forall|i: int|
                0 <= i < ws.clients.len() ==> #[trigger] after.clients[i] == if i < k {
                    Client { mapped, ..ws.clients[i] }
                } else {
                    ws.clients[i]
                }
            &&& after.fullscreen == match ws.fullscreen {
                Some(w) => if mapped || ws.position(w) >= k {
                    Some(w)
                } else {
                    None
                },
                None => None,
            }
        }),
    decreases k,
{
    let windows = ws.windows();
    if k > 0 {
        lemma_each_mapped_clients(ws, k - 1, mapped);
        assert(windows.take(k).drop_last() =~= windows.take(k - 1));
        let earlier = set_each_mapped(ws, windows.take(k - 1), mapped);
        let w = windows[k - 1];
        assert(windows.take(k).last() == w);
        assert(earlier.clients[k - 1].window == w);
        crate::workspace::lemma_position(earlier, k - 1);
        crate::workspace::lemma_position(ws, k - 1);
        lemma_set_client_mapped(earlier, w, mapped);
        let after = earlier.set_client_mapped(w, mapped);
        assert(after == set_each_mapped(ws, windows.take(k), mapped));
        if let Some(fs) = ws.fullscreen {
            lemma_position_of(ws, fs);
            let p = ws.position(fs);
            crate::workspace::lemma_position(ws, p);
            if p != k - 1 {
                assert(ws.clients[p].window != ws.clients[k - 1].window);
            }
            if earlier.fullscreen is Some {
                assert(after.clients[p].window == fs);
            }
        }
    } else {
        assert(windows.take(0) =~= Seq::<Window>::empty());
    }
}

/// What switching to another workspace comes to: that workspace is on
/// screen; every client of the workspace that left is unmapped, every client
/// of the one that entered is mapped, and their windows, weights and order
/// are as they were; the workspace that left has no fullscreen mark; the
/// other workspaces, the reverse index and the docks are untouched.
pub proof fn lemma_switch_outcome(state: StateView, id: usize)
    requires
        state.wf(),
        id < NUM_WORKSPACES,
        id != state.current,
    ensures
        ({
            let after = state.go_to_workspace(id).state;
            let left = after.workspaces[state.current as int];
            let entered = after.workspaces[id as int];
            &&& after.current == id
            &&& after.index == state.index
            &&& after.docks == state.docks
            &&& after.workspaces.len() == state.workspaces.len()
            &&& forall|i: int|
                0 <= i < state.workspaces.len() && i != id && i != state.current
                    ==> #[trigger] after.workspaces[i] == state.workspaces[i]
            &&& left.fullscreen is None
            &&& left.clients.len() == state.workspace().clients.len()
            &&& forall|i: int|
                0 <= i < left.clients.len() ==> #[trigger] left.clients[i] == (Client {
                    mapped: false,
                    ..state.workspace().clients[i]
                })
            &&& entered.clients.len() == state.workspaces[id as int].clients.len()
            &&& forall|i: int|
                0 <= i < entered.clients.len() ==> #[trigger] entered.clients[i] == (Client {
                    mapped: true,
                    ..state.workspaces[id as int].clients[i]
                })
        }),
{
    let ws = state.workspace();
    let old_windows = ws.windows();
    assert(old_windows.take(old_windows.len() as int) =~= old_windows);
    lemma_each_mapped_clients(ws, ws.clients.len() as int, false);
    let left = state.with_current(set_each_mapped(ws, old_windows, false));
    let target = left.workspaces[id as int];
    assert(target == state.workspaces[id as int]);
    let new_windows = target.windows();
    assert(new_windows.take(new_windows.len() as int) =~= new_windows);
    lemma_each_mapped_clients(target, target.clients.len() as int, true);
    let entered = StateView { current: id, ..left }.with_workspace(
        id as int,
        set_each_mapped(target, new_windows, true),
    );
    if let Some(fs) = ws.fullscreen {
        lemma_position_of(ws, fs);
    }
    if let Some(f) = entered.focused_window() {
        assert(entered.set_focus(f).state.workspaces[id as int].clients
            == entered.workspaces[id as int].clients);
    }
}

/// Toggling fullscreen twice leaves the fullscreen mark of the workspace on
/// screen as it was.
pub proof fn lemma_toggle_fullscreen_twice(state: StateView)
    requires
        state.wf(),
    ensures
        state.toggle_fullscreen().state.toggle_fullscreen().state.workspace().fullscreen
            == state.workspace().fullscreen,
{
    let ws = state.workspace();
    if let Some(focused) = ws.focused_window() {
        lemma_fullscreen_is_focused_client(ws);
        lemma_focus_is_client(ws);
        lemma_marks_wf(ws, focused, 1);
        let f = ws.focus.unwrap() as int;
        crate::workspace::lemma_position(ws, f);
        let once = state.toggle_fullscreen().state;
        let again = once.workspace();
        assert(again.clients == ws.clients);
        assert(ws.position(focused) == f);
        assert(again.position(focused) == f);
        assert(again.focused_window() == Some(focused));
    }
}

/// Switching to the workspace on screen, or to one that does not exist,
/// changes nothing and has no effects.
pub proof fn lemma_switch_to_same_or_missing(state: StateView, id: usize)
    requires
        id == state.current || id >= NUM_WORKSPACES,
    ensures
        state.go_to_workspace(id).effects == Seq::<EffectView>::empty(),
        state.go_to_workspace(id).state == state,
{
}

/// Narrowing a gap of zero changes nothing and has no effects, however far
/// the gap was to be narrowed.
pub proof fn lemma_gap_saturates(state: StateView, decrement: u32)
    requires
        decrement >= state.window_gap,
        state.window_gap == 0,
    ensures
        state.decrease_window_gap(decrement).effects == Seq::<EffectView>::empty(),
        state.decrease_window_gap(decrement).state == state,
{
}

/// The state after the weight of the focused client was lowered by each of
/// `decrements` in turn.
pub open spec fn after_decreases(state: StateView, decrements: Seq<u32>) -> StateView
    decreases decrements.len(),
{
    if decrements.len() == 0 {
        state
    } else {
        after_decreases(state, decrements.drop_last()).decrease_window_weight(
            decrements.last(),
        ).state
    }
}

/// Lowering the weight of the focused client keeps the state well-formed.
pub proof fn lemma_decrease_weight_wf(state: StateView, decrement: u32)
    requires
        state.wf(),
    ensures
        state.decrease_window_weight(decrement).state.wf(),
{
    let ws = state.workspace();
    if let Some(f) = ws.focus {
        let size = ws.clients[f as int].lighter(decrement).size;
        lemma_marks_wf(ws, Window { id: 0 }, size);
        lemma_with_workspace_wf(state, state.current as int, ws.with_focused_size(size));
    }
}

/// However often the weight of a client is lowered, and by however much, the
/// weight of every client stays at least one.
pub proof fn lemma_weight_floor(state: StateView, decrements: Seq<u32>, id: int, i: int)
    requires
        state.wf(),
        0 <= id < NUM_WORKSPACES,
        0 <= i < after_decreases(state, decrements).workspaces[id].clients.len(),
    ensures
        after_decreases(state, decrements).wf(),
        after_decreases(state, decrements).workspaces[id].clients[i].size >= 1,
    decreases decrements.len(),
{
    lemma_after_decreases_wf(state, decrements);
    let after = after_decreases(state, decrements);
    assert(after.workspaces[id].wf());
}

proof fn lemma_after_decreases_wf(state: StateView, decrements: Seq<u32>)
    requires
        state.wf(),
    ensures
        after_decreases(state, decrements).wf(),
    decreases decrements.len(),
{
    if decrements.len() > 0 {
        lemma_after_decreases_wf(state, decrements.drop_last());
        lemma_decrease_weight_wf(
            after_decreases(state, decrements.drop_last()),
            decrements.last(),
        );
    }
}

/// Two states track the same windows: the same reverse index, the same docks,
/// and in every workspace the same windows.
pub open spec fn same_windows(a: StateView, b: StateView) -> bool {
    &&& a.index == b.index
    &&& a.docks == b.docks
    &&& a.workspaces.len() == b.workspaces.len()
    &&& forall|i: int, w: Window|
        0 <= i < a.workspaces.len() ==> #[trigger] a.workspaces[i].contains(w)
            == b.workspaces[i].contains(w)
}

/// A state that tracks the same windows as an exact one is exact.
pub proof fn lemma_same_exact(a: StateView, b: StateView)
    requires
        a.exact(),
        same_windows(a, b),
    ensures
        b.exact(),
{
    assert forall|i: int, w: Window|
        0 <= i < b.workspaces.len() && #[trigger] b.workspaces[i].contains(
            w,
        ) implies b.index.contains_key(w.id) && b.index[w.id] == i by {
        assert(a.workspaces[i].contains(w));
    }
}

/// A state in which a workspace gave way to one with the same windows tracks
/// the same windows.
pub proof fn lemma_with_workspace_same(state: StateView, i: int, ws: WorkspaceView)
    requires
        0 <= i < state.workspaces.len(),
        forall|w: Window| ws.contains(w) == state.workspaces[i].contains(w),
    ensures
        same_windows(state, state.with_workspace(i, ws)),
{
}

/// After a workspace that exists was put on screen, it is the one on screen.
pub proof fn lemma_show_workspace_current(state: StateView, id: usize)
    requires
        state.current < state.workspaces.len(),
        id < NUM_WORKSPACES,
        state.workspaces.len() == NUM_WORKSPACES,
    ensures
        state.show_workspace(id).state.current == id,
{
}

/// Taking a managed window out keeps the invariant, and leaves the window in
/// no workspace and out of the reverse index.
pub proof fn lemma_without_client(state: StateView, w: Window)
    requires
        state.wf(),
    ensures
        state.without_client(w).wf(),
        !state.without_client(w).index.contains_key(w.id),
        forall|i: int|
            0 <= i < NUM_WORKSPACES ==> !(#[trigger] state.without_client(w).workspaces[i]).contains(
                w,
            ),
        state.without_client(w).docks == state.docks,
        state.without_client(w).current == state.current,
{
    let after = state.without_client(w);
    if state.index.contains_key(w.id) {
        let id = state.index[w.id] as int;
        let ws = state.workspaces[id];
        assert(ws.contains(w));
        crate::workspace::lemma_remove_at(ws, ws.position(w));
        assert(ws.clients[ws.position(w)].window == w);
        assert forall|key: u32| #[trigger] after.index.contains_key(key) implies after.index[key]
            < NUM_WORKSPACES && after.workspaces[after.index[key] as int].contains(
            Window { id: key },
        ) by {
            assert(state.index.contains_key(key));
            assert(state.workspaces[state.index[key] as int].contains(Window { id: key }));
        }
        assert forall|i: int| 0 <= i < after.workspaces.len() implies (
        #[trigger] after.workspaces[i]).wf() by {
            if i != id {
                assert(after.workspaces[i] == state.workspaces[i]);
            }
        }
        assert forall|i: int, x: Window|
            0 <= i < after.workspaces.len() && #[trigger] after.workspaces[i].contains(
                x,
            ) implies after.index.contains_key(x.id) && after.index[x.id] == i by {
            assert(state.workspaces[i].contains(x));
            if x.id == w.id {
                assert(x == w);
            }
        }
        assert forall|i: int| 0 <= i < NUM_WORKSPACES implies !(
        #[trigger] after.workspaces[i]).contains(w) by {
            if i != id {
                if state.workspaces[i].contains(w) {
                    assert(state.index[w.id] == i);
                }
            }
        }
    } else {
        assert forall|i: int| 0 <= i < NUM_WORKSPACES implies !(
        #[trigger] after.workspaces[i]).contains(w) by {
            if state.workspaces[i].contains(w) {
                assert(state.index.contains_key(w.id));
            }
        }
    }
}

/// Taking a window out of the docks keeps the invariant, and leaves no dock
/// with the window's identifier.
pub proof fn lemma_without_dock_window(state: StateView, w: Window)
    requires
        state.wf(),
    ensures
        state.without_dock_window(w).wf(),
        !state.without_dock_window(w).has_dock(w.id),
{
    crate::state::lemma_without_dock(state.docks, w.id);
    let after = state.without_dock_window(w);
    assert forall|d: int| 0 <= d < after.docks.len() implies !after.index.contains_key(
        (#[trigger] after.docks[d]).id,
    ) by {
        assert(state.docks.contains(after.docks[d]));
        let k = choose|k: int| 0 <= k < state.docks.len() && state.docks[k] == after.docks[d];
        assert(!state.index.contains_key(state.docks[k].id));
    }
    if after.has_dock(w.id) {
        let d = choose|d: int| 0 <= d < after.docks.len() && (#[trigger] after.docks[d]).id == w.id;
        assert(after.docks[d].id != w.id);
    }
}

/// Clearing the way for a window as a client of a workspace keeps the
/// invariant, and leaves the window no dock and a client of no other
/// workspace.
pub proof fn lemma_cleared_for(state: StateView, w: Window, id: usize)
    requires
        state.wf(),
        id < NUM_WORKSPACES,
    ensures
        state.cleared_for(w, id).wf(),
        state.cleared_for(w, id).current == state.current,
        !state.cleared_for(w, id).has_dock(w.id),
        state.cleared_for(w, id).index.contains_key(w.id) ==> state.cleared_for(w, id).index[w.id]
            == id,
        forall|i: int|
            0 <= i < NUM_WORKSPACES && i != id ==> !(#[trigger] state.cleared_for(
                w,
                id,
            ).workspaces[i]).contains(w),
{
    let moved = if state.index.contains_key(w.id) && state.index[w.id] != id {
        state.without_client(w)
    } else {
        state
    };
    lemma_without_client(state, w);
    lemma_without_dock_window(moved, w);
    let cleared = moved.without_dock_window(w);
    assert forall|i: int| 0 <= i < NUM_WORKSPACES && i != id implies !(
    #[trigger] cleared.workspaces[i]).contains(w) by {
        if moved.workspaces[i].contains(w) {
            assert(moved.index.contains_key(w.id) && moved.index[w.id] == i);
        }
    }
}

/// A window put on a workspace after the way was cleared for it: the
/// invariant holds again, provided the workspace itself is well-formed.
pub proof fn lemma_placed(cleared: StateView, w: Window, id: usize, ws: WorkspaceView)
    requires
        cleared.wf(),
        id < NUM_WORKSPACES,
        !cleared.has_dock(w.id),
        forall|i: int|
            0 <= i < NUM_WORKSPACES && i != id ==> !(#[trigger] cleared.workspaces[i]).contains(w),
        ws.wf(),
        forall|x: Window| ws.contains(x) == (cleared.workspaces[id as int].contains(x) || x == w),
    ensures
        (StateView { index: cleared.index.insert(w.id, id), ..cleared.with_workspace(id as int, ws) }).wf(),
{
    let after = StateView {
        index: cleared.index.insert(w.id, id),
        ..cleared.with_workspace(id as int, ws)
    };
    assert forall|key: u32| #[trigger] after.index.contains_key(key) implies after.index[key]
        < NUM_WORKSPACES && after.workspaces[after.index[key] as int].contains(
        Window { id: key },
    ) by {
        if key != w.id {
            assert(cleared.index.contains_key(key));
            assert(cleared.workspaces[cleared.index[key] as int].contains(Window { id: key }));
        } else {
            assert(Window { id: key } == w);
        }
    }
    assert forall|i: int| 0 <= i < after.workspaces.len() implies (
    #[trigger] after.workspaces[i]).wf() by {
        if i != id {
            assert(after.workspaces[i] == cleared.workspaces[i]);
        }
    }
    assert forall|i: int, x: Window|
        0 <= i < after.workspaces.len() && #[trigger] after.workspaces[i].contains(
            x,
        ) implies after.index.contains_key(x.id) && after.index[x.id] == i by {
        if i == id {
            if x != w {
                assert(cleared.workspaces[i].contains(x));
            }
        } else {
            assert(after.workspaces[i] == cleared.workspaces[i]);
            assert(cleared.workspaces[i].contains(x));
            if x.id == w.id {
                assert(x == w);
            }
        }
    }
    assert forall|d: int| 0 <= d < after.docks.len() implies !after.index.contains_key(
        (#[trigger] after.docks[d]).id,
    ) by {
        assert(!cleared.index.contains_key(cleared.docks[d].id));
        if cleared.docks[d].id == w.id {
            assert(cleared.has_dock(w.id));
        }
    }
}

/// A window that joins the docks after it was taken out as a managed window:
/// the invariant holds again.
pub proof fn lemma_with_dock(state: StateView, w: Window)
    requires
        state.wf(),
    ensures
        state.with_dock(w).wf(),
        state.with_dock(w).has_dock(w.id),
        !state.with_dock(w).index.contains_key(w.id),
        forall|i: int|
            0 <= i < NUM_WORKSPACES ==> !(#[trigger] state.with_dock(w).workspaces[i]).contains(w),
        state.with_dock(w).current == state.current,
{
    lemma_without_client(state, w);
    let cleared = state.without_client(w);
    let after = state.with_dock(w);
    if !cleared.has_dock(w.id) {
        assert(after.docks[cleared.docks.len() as int].id == w.id);
        assert forall|i: int, j: int| 0 <= i < j < after.docks.len() implies (
        #[trigger] after.docks[i]).id != (#[trigger] after.docks[j]).id by {
            if j == cleared.docks.len() {
                assert(cleared.docks[i].id != w.id);
            } else {
                assert(cleared.docks[i].id != cleared.docks[j].id);
            }
        }
        assert forall|d: int| 0 <= d < after.docks.len() implies !after.index.contains_key(
            (#[trigger] after.docks[d]).id,
        ) by {
            if d < cleared.docks.len() {
                assert(!cleared.index.contains_key(cleared.docks[d].id));
            }
        }
    }
}

/// The reverse index is exact: a window is a client of a workspace exactly
/// if the index lists it under that workspace, so it is a client of no more
/// than one workspace; and a dock is neither listed nor a client.
pub proof fn lemma_index_is_exact(state: StateView, w: Window, i: int)
    requires
        state.wf(),
        0 <= i < NUM_WORKSPACES,
    ensures
        state.workspaces[i].contains(w) <==> state.index.contains_key(w.id) && state.index[w.id]
            == i,
        state.has_dock(w.id) ==> !state.index.contains_key(w.id) && !state.workspaces[i].contains(
            w,
        ),
{
    if state.index.contains_key(w.id) && state.index[w.id] == i {
        assert(state.workspaces[i].contains(Window { id: w.id }));
    }
    if state.has_dock(w.id) {
        let d = choose|d: int| 0 <= d < state.docks.len() && (#[trigger] state.docks[d]).id == w.id;
        assert(!state.index.contains_key(state.docks[d].id));
        if state.workspaces[i].contains(w) {
            assert(state.index.contains_key(w.id));
        }
    }
}

} // verus!
