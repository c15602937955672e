//! The decisions of the event loop: what each event does to the state, and
//! which effects, launches and closings follow. The loop itself, which waits
//! for events and carries the decisions out, is the caller's.

use crate::atoms::Atoms;
use crate::config::{DEFAULT_BORDER_WIDTH, DEFAULT_DOCK_HEIGHT, DEFAULT_WINDOW_GAP};
use crate::effect::{effect_views, extend_effects, push_effect, Effect, EffectView, Window};
use crate::ewmh_manager::{ClientRequest, EwmhManager};
use crate::key_mapping::ActionEvent;
use crate::keyboard::{lookup, modifiers_of, resolve_key, KeyBindings};
use crate::state::laws::lemma_spawn_and_kill_pass;
use crate::state::model::StateView;
use crate::state::{ScreenConfig, State};
use crate::x11::{close_window_effect, WindowType};
use vstd::prelude::*;

verus! {

/// What a manager is made from: the resolved key bindings, the screen, the
/// interned atoms and the root window.
pub struct WindowManagerConfig {
    pub key_bindings: KeyBindings,
    pub screen_config: ScreenConfig,
    pub atoms: Atoms,
    pub root_window: Window,
}

/// An event of the X server, as far as the manager reads it.
#[derive(Clone, Copy, Debug)]
pub enum Event {
    /// A grabbed key was pressed: its key code, and the state of modifiers
    /// and buttons.
    KeyPress { keycode: u8, state: u32 },
    /// A window asks to be mapped; `kind` is how it was classified.
    MapRequest { window: Window, kind: WindowType },
    DestroyNotify { window: Window },
    UnmapNotify { window: Window },
    /// Any other event.
    Other,
}

/// A window found at startup: how it was classified, and the desktop that it
/// says it belongs to.
#[derive(Clone, Copy, Debug)]
pub struct StartupWindow {
    pub window: Window,
    pub kind: WindowType,
    pub desktop: Option<u32>,
}

/// What the loop is to do at the end of a turn.
#[derive(Debug)]
pub struct Turn {
    /// A command line to launch.
    pub spawn: Option<&'static str>,
    /// A window to close, before the effects are applied.
    pub close: Option<Window>,
    /// The effects to apply, in order.
    pub effects: Vec<Effect>,
}

/// The state after the windows found at startup were recorded: docks join
/// the docks, managed windows the workspace that their desktop names, and
/// managed windows without a desktop and unmanaged windows are left out.
pub open spec fn recorded(state: StateView, children: Seq<StartupWindow>) -> StateView
    decreases children.len(),
{
    if children.len() == 0 {
        state
    } else {
        let earlier = recorded(state, children.drop_last());
        let child = children.last();
        match (child.kind, child.desktop) {
            (WindowType::Dock, _) => earlier.with_dock(child.window),
            (WindowType::Managed, Some(desktop)) => earlier.track_startup_managed(
                child.window,
                desktop as usize,
            ),
            _ => earlier,
        }
    }
}

/// A desktop number as a workspace number.
pub open spec fn as_workspace(desktop: Option<u32>) -> Option<usize> {
    match desktop {
        Some(d) => Some(d as usize),
        None => None,
    }
}

/// The manager: the state, the EWMH side and the key bindings.
pub struct WindowManager {
    state: State,
    ewmh: EwmhManager,
    key_bindings: KeyBindings,
}

impl WindowManager {
    /// The state of the manager as a mathematical value.
    pub closed spec fn state_view(&self) -> StateView {
        self.state@
    }

    /// The EWMH side of the manager.
    pub closed spec fn ewmh(&self) -> EwmhManager {
        self.ewmh
    }

    /// The key bindings of the manager, by the key of key code and modifiers.
    pub closed spec fn bindings(&self) -> Map<u64, ActionEvent> {
        self.key_bindings@
    }

    /// The state is well-formed, and so are the key bindings.
    pub closed spec fn wf(&self) -> bool {
        self.state@.wf() && self.key_bindings.wf()
    }

    /// The action that a key press resolves to.
    pub open spec fn action_of(&self, keycode: u8, state: u32) -> Option<ActionEvent> {
        lookup(self.bindings(), keycode, modifiers_of(state))
    }

    /// The event can be handled: it is no key press that would widen the gap
    /// beyond what a `u32` holds.
    pub open spec fn can_handle(&self, event: Event) -> bool {
        event matches Event::KeyPress { keycode, state } ==> (self.action_of(
            keycode,
            state,
        ) matches Some(ActionEvent::IncreaseWindowGap(n)) ==> self.state_view().window_gap + n
            <= u32::MAX)
    }

    /// The state after an event.
    pub open spec fn state_after(&self, event: Event) -> StateView {
        match event {
            Event::KeyPress { keycode, state } => match self.action_of(keycode, state) {
                Some(action) => self.state_view().apply_action(action).state,
                None => self.state_view(),
            },
            Event::MapRequest { window, kind } => self.state_view().on_map_request(
                window,
                kind,
            ).state,
            Event::DestroyNotify { window } => self.state_view().on_destroy(window).state,
            Event::UnmapNotify { window } => self.state_view().on_unmap(window).state,
            Event::Other => self.state_view(),
        }
    }

    /// The effects that an event has on the state's side.
    pub open spec fn decision_effects(&self, event: Event) -> Seq<EffectView> {
        match event {
            Event::KeyPress { keycode, state } => match self.action_of(keycode, state) {
                Some(action) => self.state_view().apply_action(action).effects,
                None => Seq::empty(),
            },
            Event::MapRequest { window, kind } => self.state_view().on_map_request(
                window,
                kind,
            ).effects,
            Event::DestroyNotify { window } => self.state_view().on_destroy(window).effects,
            Event::UnmapNotify { window } => self.state_view().on_unmap(window).effects,
            Event::Other => Seq::empty(),
        }
    }

    /// The effects of a turn: those of the decision, then the EWMH sync for
    /// the state after it. An event that the manager does not model has none.
    pub open spec fn turn_effects(&self, event: Event) -> Seq<EffectView> {
        match event {
            Event::Other => Seq::empty(),
            _ => self.decision_effects(event) + self.ewmh().sync(self.state_after(event)),
        }
    }

    /// A manager without windows, with the default border, gap and dock
    /// height.
    pub fn new(config: WindowManagerConfig, wm_check_window: Window) -> (wm: WindowManager)
        requires
            config.key_bindings.wf(),
        ensures
            wm.wf(),
            wm.bindings() == config.key_bindings@,
            wm.ewmh().atoms() == config.atoms,
            wm.ewmh().root() == config.root_window,
            wm.ewmh().check_window() == wm_check_window,
            wm.state_view() == StateView::initial(
                config.screen_config,
                DEFAULT_BORDER_WIDTH,
                DEFAULT_WINDOW_GAP,
                DEFAULT_DOCK_HEIGHT,
            ),
    {
        WindowManager {
            state: State::new(
                config.screen_config,
                DEFAULT_BORDER_WIDTH,
                DEFAULT_WINDOW_GAP,
                DEFAULT_DOCK_HEIGHT,
            ),
            ewmh: EwmhManager::new(config.atoms, config.root_window, wm_check_window),
            key_bindings: config.key_bindings,
        }
    }

    /// The state, to read.
    pub fn state(&self) -> (state: &State)
        ensures
            state@ == self.state_view(),
    {
        &self.state
    }

    /// The EWMH side.
    pub fn ewmh_manager(&self) -> (ewmh: &EwmhManager)
        ensures
            *ewmh == self.ewmh(),
    {
        &self.ewmh
    }

    /// The key bindings.
    pub fn key_bindings(&self) -> (key_bindings: &KeyBindings)
        ensures
            key_bindings@ == self.bindings(),
            self.wf() ==> key_bindings.wf(),
    {
        &self.key_bindings
    }

    /// Whether `event` can be handled.
    pub fn accepts(&self, event: Event) -> (accepted: bool)
        requires
            self.wf(),
        ensures
            accepted == self.can_handle(event),
    {
        match event {
            Event::KeyPress { keycode, state } => {
                match resolve_key(&self.key_bindings, keycode, state) {
                    Some(ActionEvent::IncreaseWindowGap(n)) => n <= u32::MAX
                        - self.state.window_gap(),
                    _ => true,
                }
            },
            _ => true,
        }
    }

    /// Takes one event. A key press is resolved to its action: a program to
    /// launch and a window to close are handed back to the loop, any other
    /// action goes to the state. A map request, a destroy notification and an
    /// unmap notification go to the state. The effects of each of these end
    /// with the EWMH sync. Any other event is ignored.
    pub fn handle_event(&mut self, event: Event) -> (turn: Turn)
        requires
            old(self).wf(),
            old(self).can_handle(event),
        ensures
            final(self).wf(),
            final(self).ewmh() == old(self).ewmh(),
            final(self).bindings() == old(self).bindings(),
            final(self).state_view() == old(self).state_after(event),
            effect_views(turn.effects@) == old(self).turn_effects(event),
            turn.spawn == match event {
                Event::KeyPress { keycode, state } => match old(self).action_of(keycode, state) {
                    Some(ActionEvent::Spawn(command)) => Some(command),
                    _ => None,
                },
                _ => None,
            },
            turn.close == match event {
                Event::KeyPress { keycode, state } => match old(self).action_of(keycode, state) {
                    Some(ActionEvent::Kill) => old(self).state_view().focused_window(),
                    _ => None,
                },
                _ => None,
            },
    {
        let mut spawn: Option<&'static str> = None;
        let mut close: Option<Window> = None;
        let mut effects: Vec<Effect> = Vec::new();
        assert(effect_views(effects@) =~= Seq::empty());
        match event {
            Event::KeyPress { keycode, state } => {
                match resolve_key(&self.key_bindings, keycode, state) {
                    Some(ActionEvent::Spawn(command)) => {
                        proof {
                            lemma_spawn_and_kill_pass(self.state@, ActionEvent::Spawn(command));
                        }
                        spawn = Some(command);
                    },
                    Some(ActionEvent::Kill) => {
                        proof {
                            lemma_spawn_and_kill_pass(self.state@, ActionEvent::Kill);
                        }
                        close = self.state.focused_window();
                    },
                    Some(action) => {
                        effects = self.state.apply_action(action);
                    },
                    None => {},
                }
            },
            Event::MapRequest { window, kind } => {
                effects = self.state.on_map_request(window, kind);
            },
            Event::DestroyNotify { window } => {
                effects = self.state.on_destroy(window);
            },
            Event::UnmapNotify { window } => {
                effects = self.state.on_unmap(window);
            },
            Event::Other => {
                return Turn { spawn, close, effects };
            },
        }
        let sync = self.ewmh.sync_effects(&self.state);
        extend_effects(&mut effects, sync);
        Turn { spawn, close, effects }
    }

    /// Whether focusing `window` on a client's request needs the desktop that
    /// the window names: it does if the reverse index does not know the
    /// window.
    pub fn needs_desktop_hint(&self, window: Window) -> (needed: bool)
        ensures
            needed == self.state_view().window_workspace(window).is_none(),
    {
        self.state.window_workspace(window).is_none()
    }

    /// The state after a client's request was fulfilled.
    pub open spec fn state_after_request(&self, request: ClientRequest, desktop_hint: Option<u32>)
        -> StateView {
        match request {
            ClientRequest::SwitchDesktop(id) => self.state_view().go_to_workspace(id).state,
            ClientRequest::Activate(window) => self.state_view().focus_window(
                window,
                as_workspace(desktop_hint),
            ).state,
            _ => self.state_view(),
        }
    }

    /// The effects that fulfil a client's request.
    pub open spec fn request_effects(
        &self,
        request: ClientRequest,
        desktop_hint: Option<u32>,
        supports_delete: Option<bool>,
    ) -> Seq<EffectView> {
        match request {
            ClientRequest::SwitchDesktop(id) => self.state_view().go_to_workspace(id).effects,
            ClientRequest::Activate(window) => self.state_view().focus_window(
                window,
                as_workspace(desktop_hint),
            ).effects,
            ClientRequest::Close(window) => seq![
                if supports_delete == Some(true) {
                    EffectView::SendWmDelete(window)
                } else {
                    EffectView::KillClient(window)
                },
            ],
            ClientRequest::Ignore => Seq::empty(),
        }
    }

    /// Fulfils what a client message asks for. `desktop_hint` is the desktop
    /// that the window of an activation names, if it was read; and
    /// `supports_delete` says whether the window of a closing takes part in
    /// the delete-window protocol, if that could be found out.
    pub fn handle_client_message(
        &mut self,
        request: ClientRequest,
        desktop_hint: Option<u32>,
        supports_delete: Option<bool>,
    ) -> (effects: Vec<Effect>)
        requires
            old(self).wf(),
        ensures
            final(self).wf(),
            final(self).ewmh() == old(self).ewmh(),
            final(self).bindings() == old(self).bindings(),
            final(self).state_view() == old(self).state_after_request(request, desktop_hint),
            effect_views(effects@) == old(self).request_effects(
                request,
                desktop_hint,
                supports_delete,
            ),
    {
        match request {
            ClientRequest::SwitchDesktop(id) => self.state.go_to_workspace(id),
            ClientRequest::Activate(window) => {
                let hint = match desktop_hint {
                    Some(d) => Some(d as usize),
                    None => None,
                };
                self.state.focus_window(window, hint)
            },
            ClientRequest::Close(window) => {
                let mut effects: Vec<Effect> = Vec::new();
                effects.push(close_window_effect(window, supports_delete));
                assert(effect_views(effects@) =~= old(self).request_effects(
                    request,
                    desktop_hint,
                    supports_delete,
                ));
                effects
            },
            ClientRequest::Ignore => {
                let effects: Vec<Effect> = Vec::new();
                assert(effect_views(effects@) =~= Seq::empty());
                effects
            },
        }
    }

    /// Records the windows found at startup and ends the startup:
    /// `current_desktop` is the desktop that was on screen before, if the
    /// root window says so.
    pub fn reassemble(&mut self, children: &[StartupWindow], current_desktop: Option<u32>) -> (effects:
        Vec<Effect>)
        requires
            old(self).wf(),
        ensures
            final(self).wf(),
            final(self).ewmh() == old(self).ewmh(),
            final(self).bindings() == old(self).bindings(),
            final(self).state_view() == recorded(
                old(self).state_view(),
                children@,
            ).startup_finalize(as_workspace(current_desktop)).state,
            effect_views(effects@) == recorded(
                old(self).state_view(),
                children@,
            ).startup_finalize(as_workspace(current_desktop)).effects,
    {
        let mut i: usize = 0;
        assert(children@.take(0) =~= Seq::empty());
        while i < children.len()
            invariant
                i <= children@.len(),
                self.wf(),
                self.ewmh() == old(self).ewmh(),
                self.bindings() == old(self).bindings(),
                self.state_view() == recorded(old(self).state_view(), children@.take(i as int)),
            decreases children@.len() - i,
        {
            assert(children@.take(i + 1).drop_last() =~= children@.take(i as int));
            let child = &children[i];
            match (child.kind, child.desktop) {
                (WindowType::Dock, _) => {
                    self.state.track_startup_dock(child.window);
                },
                (WindowType::Managed, Some(desktop)) => {
                    self.state.track_startup_managed(child.window, desktop as usize);
                },
                _ => {},
            }
            i = i + 1;
        }
        assert(children@.take(children@.len() as int) =~= children@);
        let hint = match current_desktop {
            Some(d) => Some(d as usize),
            None => None,
        };
        self.state.startup_finalize(hint)
    }
}

/// The effects of closing `window` in a turn: the closing itself, then the
/// effects that end the turn.
pub fn close_effects(window: Window, supports_delete: Option<bool>, then: Vec<Effect>) -> (effects:
    Vec<Effect>)
    ensures
        effect_views(effects@) == seq![
            if supports_delete == Some(true) {
                EffectView::SendWmDelete(window)
            } else {
                EffectView::KillClient(window)
            },
        ] + effect_views(then@),
{
    let mut effects: Vec<Effect> = Vec::new();
    assert(effect_views(effects@) =~= Seq::empty());
    push_effect(&mut effects, close_window_effect(window, supports_delete));
    extend_effects(&mut effects, then);
    effects
}

} // verus!
