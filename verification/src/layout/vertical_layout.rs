use crate::layout::horizontal_layout::{columns, generate_columns};
use crate::layout::{Layout, Rect};
use vstd::prelude::*;

verus! {

/// Partitions the width of the area by weight, as `HorizontalLayout` does:
/// the two strategies assign the same rectangles.
#[derive(Clone, Copy, Debug)]
pub struct VerticalLayout;

impl Layout for VerticalLayout {
    open spec fn layout(
        &self,
        area: Rect,
        weights: Seq<u32>,
        border_width: u32,
        window_gap: u32,
    ) -> Seq<Rect> {
        columns(area, weights, border_width, window_gap)
    }

    fn generate_layout(
        &self,
        area: Rect,
        weights: &[u32],
        border_width: u32,
        window_gap: u32,
    ) -> (rects: Vec<Rect>) {
        generate_columns(area, weights, border_width, window_gap)
    }
}

} // verus!
