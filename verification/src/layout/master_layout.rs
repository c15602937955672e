use crate::layout::{coordinate, coordinate_of, pad, padded, total_border, Layout, Rect};
use vstd::prelude::*;

verus! {

/// Halves what is left of the area for each tile but the last: tiles at even
/// positions take the left half, tiles at odd positions the top half, and the
/// last tile takes all that remains.
#[derive(Clone, Copy, Debug)]
pub struct MasterLayout;

/// The part of the area that is still free, before borders are taken off.
pub struct Remaining {
    pub x: int,
    pub y: int,
    pub w: int,
    pub h: int,
}

/// What is free of `area` before the tile at position `i` is placed.
///
/// The first tile finds the area less the gap, starting at the gap. A tile at
/// an even position leaves the right half of what it found, one at an odd
/// position the lower half.
pub open spec fn remaining_before(area: Rect, window_gap: u32, i: nat) -> Remaining
    decreases i,
{
    if i == 0 {
        Remaining {
            x: window_gap as int,
            y: window_gap as int,
            w: if area.w >= window_gap {
                area.w - window_gap
            } else {
                0
            },
            h: if area.h >= window_gap {
                area.h - window_gap
            } else {
                0
            },
        }
    } else {
        let before = remaining_before(area, window_gap, (i - 1) as nat);
        if (i - 1) % 2 == 0 {
            Remaining { x: before.x + before.w / 2, y: before.y, w: before.w / 2, h: before.h }
        } else {
            Remaining { x: before.x, y: before.y + before.h / 2, w: before.w, h: before.h / 2 }
        }
    }
}

/// The rectangle of the tile at position `i` among `count` tiles.
pub open spec fn master_rect(
    area: Rect,
    count: nat,
    border_width: u32,
    window_gap: u32,
    i: nat,
) -> Rect {
    let free = remaining_before(area, window_gap, i);
    let border = border_width + window_gap / 2;
    let (w, h) = if i + 1 == count {
        (free.w, free.h)
    } else if i % 2 == 0 {
        (free.w / 2, free.h)
    } else {
        (free.w, free.h / 2)
    };
    Rect {
        x: coordinate(free.x) as i32,
        y: coordinate(free.y) as i32,
        w: padded(w, border) as u32,
        h: padded(h, border) as u32,
    }
}

/// The tiles of a master-and-stack arrangement, one per weight.
pub open spec fn master_tiles(area: Rect, count: nat, border_width: u32, window_gap: u32) -> Seq<
    Rect,
> {
    Seq::new(count, |i: int| master_rect(area, count, border_width, window_gap, i as nat))
}

proof fn lemma_remaining_bounds(area: Rect, window_gap: u32, i: nat)
    ensures
        ({
            let free = remaining_before(area, window_gap, i);
            &&& 0 <= free.w <= area.w
            &&& 0 <= free.h <= area.h
            &&& window_gap <= free.x
            &&& window_gap <= free.y
            &&& free.x + free.w <= window_gap + area.w
            &&& free.y + free.h <= window_gap + area.h
            &&& free.w >= 1 ==> free.x + free.w <= area.w
            &&& free.h >= 1 ==> free.y + free.h <= area.h
        }),
    decreases i,
{
    if i > 0 {
        lemma_remaining_bounds(area, window_gap, (i - 1) as nat);
    }
}

/// A tile that is not cut down to a single pixel lies within the area: it
/// starts at or after the gap, and with its border on both sides it ends
/// within the width and the height of the area.
pub proof fn lemma_tile_within_area(
    area: Rect,
    count: nat,
    border_width: u32,
    window_gap: u32,
    i: nat,
)
    requires
        i < count,
        area.w <= i32::MAX,
        area.h <= i32::MAX,
        ({
            let tile = master_rect(area, count, border_width, window_gap, i);
            tile.w > 1 && tile.h > 1
        }),
    ensures
        ({
            let tile = master_rect(area, count, border_width, window_gap, i);
            &&& window_gap <= tile.x
            &&& tile.x + tile.w + 2 * border_width <= area.w
            &&& window_gap <= tile.y
            &&& tile.y + tile.h + 2 * border_width <= area.h
        }),
{
    lemma_remaining_bounds(area, window_gap, i);
    let free = remaining_before(area, window_gap, i);
    let border = border_width + window_gap / 2;
    let (w, h) = if i + 1 == count {
        (free.w, free.h)
    } else if i % 2 == 0 {
        (free.w / 2, free.h)
    } else {
        (free.w, free.h / 2)
    };
    let tile = master_rect(area, count, border_width, window_gap, i);
    assert(0 <= w <= free.w && 0 <= h <= free.h);
    assert(1 <= padded(w, border) <= area.w);
    assert(1 <= padded(h, border) <= area.h);
    assert(tile.w == padded(w, border));
    assert(tile.h == padded(h, border));
    assert(free.w >= 1 && free.h >= 1);
    assert(tile.x == free.x && tile.y == free.y);
}

impl Layout for MasterLayout {
    open spec fn layout(
        &self,
        area: Rect,
        weights: Seq<u32>,
        border_width: u32,
        window_gap: u32,
    ) -> Seq<Rect> {
        master_tiles(area, weights.len(), border_width, window_gap)
    }

    fn generate_layout(
        &self,
        area: Rect,
        weights: &[u32],
        border_width: u32,
        window_gap: u32,
    ) -> (rects: Vec<Rect>) {
        let n = weights.len();
        let border = total_border(border_width, window_gap / 2);
        let mut prev_x: u64 = window_gap as u64;
        let mut prev_y: u64 = window_gap as u64;
        let mut prev_w: u32 = if area.w >= window_gap {
            area.w - window_gap
        } else {
            0
        };
        let mut prev_h: u32 = if area.h >= window_gap {
            area.h - window_gap
        } else {
            0
        };
        let mut rects: Vec<Rect> = Vec::new();
        if n == 0 {
            return rects;
        }
        let mut i: usize = 0;
        while i < n - 1
            invariant
                n == weights@.len(),
                i < n,
                forall|dim: u32|
                    padded(dim as int, border as int) == padded(
                        dim as int,
                        border_width + window_gap / 2,
                    ),
                remaining_before(area, window_gap, i as nat) == (Remaining {
                    x: prev_x as int,
                    y: prev_y as int,
                    w: prev_w as int,
                    h: prev_h as int,
                }),
                rects@.len() == i,
                forall|j: int| 0 <= j < i ==> rects@[j].w >= 1 && rects@[j].h >= 1,
                forall|j: int|
                    0 <= j < i ==> rects@[j] == master_rect(
                        area,
                        n as nat,
                        border_width,
                        window_gap,
                        j as nat,
                    ),
            decreases n - i,
        {
            proof {
                lemma_remaining_bounds(area, window_gap, i as nat);
                lemma_remaining_bounds(area, window_gap, (i + 1) as nat);
            }
            if i % 2 == 0 {
                let inner_w = prev_w / 2;
                rects.push(
                    Rect {
                        x: coordinate_of(prev_x),
                        y: coordinate_of(prev_y),
                        w: pad(inner_w, border),
                        h: pad(prev_h, border),
                    },
                );
                prev_x = prev_x + inner_w as u64;
                prev_w = inner_w;
            } else {
                let inner_h = prev_h / 2;
                rects.push(
                    Rect {
                        x: coordinate_of(prev_x),
                        y: coordinate_of(prev_y),
                        w: pad(prev_w, border),
                        h: pad(inner_h, border),
                    },
                );
                prev_y = prev_y + inner_h as u64;
                prev_h = inner_h;
            }
            i = i + 1;
        }
        rects.push(
            Rect {
                x: coordinate_of(prev_x),
                y: coordinate_of(prev_y),
                w: pad(prev_w, border),
                h: pad(prev_h, border),
            },
        );
        assert(rects@ =~= master_tiles(area, n as nat, border_width, window_gap));
        rects
    }
}

} // verus!
