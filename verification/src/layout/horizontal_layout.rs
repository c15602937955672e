use crate::layout::{
    coordinate, coordinate_of, lemma_prefix_weight_le, lemma_prefix_weight_step, pad, padded,
    positive_weights, sum_weights, total_border, total_weight, Layout, Rect,
};
use vstd::prelude::*;

verus! {

/// Splits the area into columns side by side, each as wide as its weight's
/// share of the total weight.
#[derive(Clone, Copy, Debug)]
pub struct HorizontalLayout;

/// The share of one unit of weight in the width of `area`, in whole pixels;
/// nothing where the weights add up to nothing.
pub open spec fn unit_share(area: Rect, weights: Seq<u32>) -> int {
    if total_weight(weights) > 0 {
        area.w as int / total_weight(weights)
    } else {
        0
    }
}

/// The share of the `i`-th weight in the width of `area`, in whole pixels;
/// nothing where the weights add up to nothing.
pub open spec fn cell_width(area: Rect, weights: Seq<u32>, i: int) -> int {
    if total_weight(weights) > 0 {
        area.w * weights[i] / total_weight(weights)
    } else {
        0
    }
}

/// The rectangle of the `i`-th weight in a horizontal partition of `area`.
///
/// The cell starts at the weight before it, counted in whole shares of the
/// width, plus the gap. Its width is the cell's share of the width, its height
/// the height of the area, both less border and gap on either side.
pub open spec fn column_rect(
    area: Rect,
    weights: Seq<u32>,
    border_width: u32,
    window_gap: u32,
    i: int,
) -> Rect {
    Rect {
        x: coordinate(
            total_weight(weights.take(i)) * unit_share(area, weights) + window_gap,
        ) as i32,
        y: coordinate(window_gap as int) as i32,
        w: padded(cell_width(area, weights, i), border_width + window_gap) as u32,
        h: padded(area.h as int, border_width + window_gap) as u32,
    }
}

/// The columns of a horizontal partition, one per weight.
pub open spec fn columns(area: Rect, weights: Seq<u32>, border_width: u32, window_gap: u32) -> Seq<
    Rect,
> {
    Seq::new(weights.len(), |i: int| column_rect(area, weights, border_width, window_gap, i))
}

/// A column that is not cut down to a single pixel lies within the area: it
/// starts at or after the gap, and with its border on both sides and the gap
/// after it, it ends within the width and the height of the area.
pub proof fn lemma_column_within_area(
    area: Rect,
    weights: Seq<u32>,
    border_width: u32,
    window_gap: u32,
    i: int,
)
    requires
        positive_weights(weights),
        0 <= i < weights.len(),
        area.w <= i32::MAX,
        cell_width(area, weights, i) >= 2 * (border_width + window_gap) + 1,
        area.h >= 2 * (border_width + window_gap) + 1,
    ensures
        ({
            let column = column_rect(area, weights, border_width, window_gap, i);
            &&& window_gap <= column.x
            &&& column.x + column.w + 2 * border_width + window_gap <= area.w
            &&& window_gap == column.y
            &&& column.y + column.h + 2 * border_width + window_gap <= area.h
        }),
{
    lemma_prefix_weight_le(weights, i);
    lemma_prefix_weight_le(weights, i + 1);
    lemma_prefix_weight_step(weights, i);
    let total = total_weight(weights);
    let before = total_weight(weights.take(i));
    let weight = weights[i] as int;
    let width = area.w as int;
    let share = width / total;
    let cell = width * weight / total;
    assert(share * total <= width) by (nonlinear_arith)
        requires
            share == width / total,
            total >= 1,
            width >= 0,
    ;
    assert(cell * total <= width * weight) by (nonlinear_arith)
        requires
            cell == width * weight / total,
            total >= 1,
            width * weight >= 0,
    ;
    assert(width * weight >= 0) by (nonlinear_arith)
        requires
            width >= 0,
            weight >= 0,
    ;
    assert(before * share + cell <= width) by (nonlinear_arith)
        requires
            share * total <= width,
            cell * total <= width * weight,
            0 <= before,
            0 <= weight,
            before + weight <= total,
            total >= 1,
            0 <= share,
            0 <= width,
    ;
    assert(0 <= share) by (nonlinear_arith)
        requires
            share == width / total,
            total >= 1,
            width >= 0,
    ;
    assert(0 <= before * share) by (nonlinear_arith)
        requires
            0 <= before,
            0 <= share,
    ;
}

pub(crate) fn generate_columns(
    area: Rect,
    weights: &[u32],
    border_width: u32,
    window_gap: u32,
) -> (rects: Vec<Rect>)
    ensures
        rects@ == columns(area, weights@, border_width, window_gap),
        forall|i: int| 0 <= i < rects@.len() ==> rects@[i].w >= 1 && rects@[i].h >= 1,
{
    let n = weights.len();
    let mut rects: Vec<Rect> = Vec::new();
    if n == 0 {
        return rects;
    }
    let total = sum_weights(weights);
    let border = total_border(border_width, window_gap);
    let inner_h = pad(area.h, border);
    let partitions: u128 = if total > 0 {
        (area.w as u128) / total
    } else {
        0
    };
    let mut cumulative: u128 = 0;
    let mut i: usize = 0;
    assert(weights@.take(0).len() == 0);
    while i < n
        invariant
            n == weights@.len(),
            i <= n,
            total == total_weight(weights@),
            partitions == unit_share(area, weights@),
            cumulative == total_weight(weights@.take(i as int)),
            border == if border_width + window_gap <= u32::MAX {
                border_width + window_gap
            } else {
                u32::MAX as int
            },
            inner_h == padded(area.h as int, border_width + window_gap),
            rects@.len() == i,
            forall|j: int| 0 <= j < i ==> rects@[j].w >= 1 && rects@[j].h >= 1,
            forall|j: int|
                0 <= j < i ==> rects@[j] == column_rect(
                    area,
                    weights@,
                    border_width,
                    window_gap,
                    j,
                ),
        decreases n - i,
    {
        let weight = weights[i];
        proof {
            lemma_prefix_weight_step(weights@, i as int);
            lemma_prefix_weight_le(weights@, i as int + 1);
            lemma_prefix_weight_le(weights@, i as int);
            let t = total as int;
            let w = area.w as int;
            let c = cumulative as int;
            assert(weight <= t);
            if t > 0 {
                assert(w * weight / t <= w) by (nonlinear_arith)
                    requires
                        0 <= w,
                        0 <= weight <= t,
                        t >= 1,
                ;
                assert(0 <= w * weight / t) by (nonlinear_arith)
                    requires
                        0 <= w,
                        0 <= weight,
                        t >= 1,
                ;
                assert(0 <= c * (w / t) <= w) by (nonlinear_arith)
                    requires
                        0 <= w,
                        0 <= c <= t,
                        t >= 1,
                ;
            }
            assert(w * weight <= 0xffff_ffff * 0xffff_ffff) by (nonlinear_arith)
                requires
                    0 <= w <= 0xffff_ffff,
                    0 <= weight <= 0xffff_ffff,
            ;
        }
        let cell: u128 = if total > 0 {
            (area.w as u128) * (weight as u128) / total
        } else {
            0
        };
        let inner_w = pad(cell as u32, border);
        let x: u128 = cumulative * partitions + (window_gap as u128);
        rects.push(
            Rect {
                x: coordinate_of(x as u64),
                y: coordinate_of(window_gap as u64),
                w: inner_w,
                h: inner_h,
            },
        );
        cumulative = cumulative + (weight as u128);
        i = i + 1;
    }
    assert(rects@ =~= columns(area, weights@, border_width, window_gap));
    rects
}

impl Layout for HorizontalLayout {
    open spec fn layout(
        &self,
        area: Rect,
        weights: Seq<u32>,
        border_width: u32,
        window_gap: u32,
    ) -> Seq<Rect> {
        columns(area, weights, border_width, window_gap)
    }

    fn generate_layout(
        &self,
        area: Rect,
        weights: &[u32],
        border_width: u32,
        window_gap: u32,
    ) -> (rects: Vec<Rect>) {
        generate_columns(area, weights, border_width, window_gap)
    }
}

} // verus!
