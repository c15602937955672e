use crate::layout::LayoutType;
use vstd::prelude::*;

verus! {

/// Number of virtual desktops.
pub const NUM_WORKSPACES: usize = 10;

/// Border width, in pixels, that a fresh manager gives its tiles.
pub const DEFAULT_BORDER_WIDTH: u32 = 3;

/// Gap, in pixels, that a fresh manager leaves around its tiles.
pub const DEFAULT_WINDOW_GAP: u32 = 0;

/// Height, in pixels, of the strip at the bottom of the screen that docks get.
pub const DEFAULT_DOCK_HEIGHT: u32 = 30;

/// The layout that a fresh manager puts in use.
pub const DEFAULT_LAYOUT: LayoutType = LayoutType::HorizontalLayout;

} // verus!
