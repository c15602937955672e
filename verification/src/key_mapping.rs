use vstd::prelude::*;

verus! {

/// What a key binding asks for.
#[derive(Debug, Copy, Clone)]
pub enum ActionEvent {
    /// Launch a program, given as a command line.
    Spawn(&'static str),
    /// Close the focused window.
    Kill,
    ToggleFullscreen,
    PrevWindow,
    NextWindow,
    SwapLeft,
    SwapRight,
    IncreaseWindowWeight(u32),
    DecreaseWindowWeight(u32),
    IncreaseWindowGap(u32),
    DecreaseWindowGap(u32),
    GoToWorkspace(usize),
    SendToWorkspace(usize),
    CycleLayout,
}

/// A key binding as configured: a key symbol, the modifier masks that go with
/// it, and the action.
#[derive(Debug, Copy, Clone)]
pub struct ActionMapping {
    pub key: u32,
    pub modifiers: &'static [u32],
    pub action: ActionEvent,
}

} // verus!
