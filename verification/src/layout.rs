use crate::config::DEFAULT_LAYOUT;
use crate::layout::horizontal_layout::HorizontalLayout;
use crate::layout::layout_map::{
    contains_layout, empty_layout_map, has_key, insert_layout, layout_at, layout_count,
    layout_entries, layout_for, layout_index_of,
};
use crate::layout::master_layout::MasterLayout;
use indexmap::IndexMap;
use vstd::prelude::*;

pub mod horizontal_layout;
pub mod layout_map;
pub mod master_layout;
pub mod vertical_layout;

verus! {

/// A rectangle on the screen: its top-left corner and its size in pixels.
#[derive(Clone, Copy, Debug)]
pub struct Rect {
    pub x: i32,
    pub y: i32,
    pub w: u32,
    pub h: u32,
}

/// A dimension after a border has been taken from both of its ends, never
/// less than one pixel.
pub open spec fn padded(dim: int, border: int) -> int {
    if dim - 2 * border >= 1 {
        dim - 2 * border
    } else {
        1
    }
}

/// A coordinate as an `i32`: the value itself where it fits, the largest
/// `i32` where it does not.
pub open spec fn coordinate(v: int) -> int {
    if v <= i32::MAX {
        v
    } else {
        i32::MAX as int
    }
}

/// Sum of a sequence of weights.
pub open spec fn total_weight(weights: Seq<u32>) -> int
    decreases weights.len(),
{
    if weights.len() == 0 {
        0
    } else {
        total_weight(weights.drop_last()) + weights.last()
    }
}

/// Every weight in the sequence is at least one.
pub open spec fn positive_weights(weights: Seq<u32>) -> bool {
    forall|i: int| 0 <= i < weights.len() ==> weights[i] >= 1
}

/// Takes `border` pixels from both ends of `dim`, and leaves at least one.
pub fn pad(dim: u32, border: u32) -> (inner: u32)
    ensures
        inner == padded(dim as int, border as int),
{
    if border <= dim / 2 && dim - 2 * border >= 1 {
        dim - 2 * border
    } else {
        1
    }
}

/// The coordinate that stands for `v`.
pub(crate) fn coordinate_of(v: u64) -> (c: i32)
    ensures
        c == coordinate(v as int),
{
    if v <= 0x7fff_ffff {
        v as i32
    } else {
        i32::MAX
    }
}

/// Border and gap together, as far as a `u32` holds them.
pub(crate) fn total_border(border_width: u32, window_gap: u32) -> (border: u32)
    ensures
        border == if border_width + window_gap <= u32::MAX {
            border_width + window_gap
        } else {
            u32::MAX as int
        },
        forall|dim: u32|
            padded(dim as int, border as int) == padded(dim as int, border_width + window_gap),
{
    if border_width <= u32::MAX - window_gap {
        border_width + window_gap
    } else {
        u32::MAX
    }
}

/// The weight of a prefix grows by the weight that the prefix takes in.
pub proof fn lemma_prefix_weight_step(weights: Seq<u32>, i: int)
    requires
        0 <= i < weights.len(),
    ensures
        total_weight(weights.take(i + 1)) == total_weight(weights.take(i)) + weights[i],
{
    assert(weights.take(i + 1).drop_last() =~= weights.take(i));
}

/// No prefix weighs more than the whole sequence, nor more than `u32::MAX`
/// for each of its items.
pub proof fn lemma_prefix_weight_le(weights: Seq<u32>, i: int)
    requires
        0 <= i <= weights.len(),
    ensures
        0 <= total_weight(weights.take(i)) <= total_weight(weights),
        total_weight(weights.take(i)) <= i * u32::MAX,
        positive_weights(weights) ==> total_weight(weights.take(i)) >= i,
    decreases weights.len() - i,
{
    lemma_weight_bounds(weights.take(i));
    if i == weights.len() {
        assert(weights.take(i) =~= weights);
    } else {
        lemma_prefix_weight_step(weights, i);
        lemma_prefix_weight_le(weights, i + 1);
    }
}

proof fn lemma_weight_bounds(weights: Seq<u32>)
    ensures
        0 <= total_weight(weights) <= weights.len() * u32::MAX,
        positive_weights(weights) ==> total_weight(weights) >= weights.len(),
    decreases weights.len(),
{
    if weights.len() > 0 {
        lemma_weight_bounds(weights.drop_last());
    }
}

/// Adds up the weights.
pub(crate) fn sum_weights(weights: &[u32]) -> (total: u128)
    ensures
        total == total_weight(weights@),
{
    let n = weights.len();
    let mut total: u128 = 0;
    let mut i: usize = 0;
    assert(weights@.take(0).len() == 0);
    while i < n
        invariant
            n == weights@.len(),
            i <= n,
            total == total_weight(weights@.take(i as int)),
            total <= i * u32::MAX,
        decreases n - i,
    {
        proof {
            lemma_prefix_weight_step(weights@, i as int);
        }
        total = total + (weights[i] as u128);
        i = i + 1;
    }
    assert(weights@.take(n as int) =~= weights@);
    total
}

/// A tiling strategy: it gives every weight its rectangle within an area,
/// whatever the weights and the area are.
pub trait Layout {
    /// The rectangles that the strategy assigns, in the order of the weights.
    spec fn layout(&self, area: Rect, weights: Seq<u32>, border_width: u32, window_gap: u32) -> Seq<
        Rect,
    >;

    fn generate_layout(
        &self,
        area: Rect,
        weights: &[u32],
        border_width: u32,
        window_gap: u32,
    ) -> (rects: Vec<Rect>)
        ensures
            rects@ == self.layout(area, weights@, border_width, window_gap),
            rects@.len() == weights@.len(),
            forall|i: int| 0 <= i < rects@.len() ==> rects@[i].w >= 1 && rects@[i].h >= 1,
    ;
}

/// The identifiers of the layouts that the manager knows.
#[derive(Debug, Hash, PartialEq, Eq, Structural, Clone, Copy)]
pub enum LayoutType {
    HorizontalLayout,
    MasterLayout,
}

impl LayoutType {
    /// The number under which the layout is filed.
    pub open spec fn spec_id(self) -> u32 {
        match self {
            LayoutType::HorizontalLayout => 0,
            LayoutType::MasterLayout => 1,
        }
    }

    /// The layout filed under a number, if there is one.
    pub open spec fn spec_from_id(id: u32) -> Option<LayoutType> {
        if id == 0 {
            Some(LayoutType::HorizontalLayout)
        } else if id == 1 {
            Some(LayoutType::MasterLayout)
        } else {
            None
        }
    }

    #[verifier::when_used_as_spec(spec_id)]
    pub fn id(self) -> (id: u32)
        ensures
            id == self.spec_id(),
            LayoutType::spec_from_id(id) == Some(self),
    {
        match self {
            LayoutType::HorizontalLayout => 0,
            LayoutType::MasterLayout => 1,
        }
    }

    #[verifier::when_used_as_spec(spec_from_id)]
    pub fn from_id(id: u32) -> (layout: Option<LayoutType>)
        ensures
            layout == LayoutType::spec_from_id(id),
            layout matches Some(l) ==> l.spec_id() == id,
    {
        if id == 0 {
            Some(LayoutType::HorizontalLayout)
        } else if id == 1 {
            Some(LayoutType::MasterLayout)
        } else {
            None
        }
    }
}

/// One of the strategies that the manager can hand out.
#[derive(Clone, Copy, Debug)]
pub enum LayoutStrategy {
    Horizontal(HorizontalLayout),
    Master(MasterLayout),
}

impl Layout for LayoutStrategy {
    open spec fn layout(
        &self,
        area: Rect,
        weights: Seq<u32>,
        border_width: u32,
        window_gap: u32,
    ) -> Seq<Rect> {
        match self {
            LayoutStrategy::Horizontal(l) => l.layout(area, weights, border_width, window_gap),
            LayoutStrategy::Master(l) => l.layout(area, weights, border_width, window_gap),
        }
    }

    fn generate_layout(
        &self,
        area: Rect,
        weights: &[u32],
        border_width: u32,
        window_gap: u32,
    ) -> (rects: Vec<Rect>) {
        match self {
            LayoutStrategy::Horizontal(l) => l.generate_layout(
                area,
                weights,
                border_width,
                window_gap,
            ),
            LayoutStrategy::Master(l) => l.generate_layout(area, weights, border_width, window_gap),
        }
    }
}

/// The strategy that implements a layout.
pub open spec fn strategy_of(layout: LayoutType) -> LayoutStrategy {
    match layout {
        LayoutType::HorizontalLayout => LayoutStrategy::Horizontal(HorizontalLayout),
        LayoutType::MasterLayout => LayoutStrategy::Master(MasterLayout),
    }
}

/// No two entries have the same key.
pub open spec fn distinct_keys(entries: Seq<(u32, LayoutStrategy)>) -> bool {
    forall|i: int, j: int|
        0 <= i < j < entries.len() ==> (#[trigger] entries[i]).0 != (#[trigger] entries[j]).0
}

/// The position of the entry with the key `key`.
pub open spec fn key_position(entries: Seq<(u32, LayoutStrategy)>, key: u32) -> int {
    choose|i: int| 0 <= i < entries.len() && (#[trigger] entries[i]).0 == key
}

/// The layouts of a manager as a mathematical value.
#[verifier::ext_equal]
pub struct Layouts {
    /// The registered layouts by number, each with its strategy, in the order
    /// in which they were registered.
    pub entries: Seq<(u32, LayoutStrategy)>,
    /// The layout in use.
    pub current: LayoutType,
}

impl Layouts {
    /// At least one layout is registered, each under a number of its own that
    /// stands for a layout, and the layout in use is one of them.
    pub open spec fn wf(self) -> bool {
        &&& self.entries.len() > 0
        &&& distinct_keys(self.entries)
        &&& forall|i: int|
            0 <= i < self.entries.len() ==> LayoutType::spec_from_id(
                (#[trigger] self.entries[i]).0,
            ).is_some()
        &&& has_key(self.entries, self.current.spec_id())
    }

    /// The strategy registered for the layout in use.
    pub open spec fn strategy(self) -> LayoutStrategy {
        self.entries[key_position(self.entries, self.current.spec_id())].1
    }

    /// The layouts with `layout` in use if it is registered, and unchanged if
    /// it is not.
    pub open spec fn set_layout(self, layout: LayoutType) -> Layouts {
        if has_key(self.entries, layout.spec_id()) {
            Layouts { current: layout, ..self }
        } else {
            self
        }
    }

    /// The layouts with the next registered layout in use, the first after
    /// the last.
    pub open spec fn cycle(self) -> Layouts {
        let position = key_position(self.entries, self.current.spec_id());
        let next = (position + 1) % (self.entries.len() as int);
        Layouts { current: LayoutType::spec_from_id(self.entries[next].0).unwrap(), ..self }
    }

    /// The layouts of a fresh manager: the horizontal partition and the
    /// master-and-stack layout, in that order, with the configured default in
    /// use.
    pub open spec fn initial() -> Layouts {
        Layouts {
            entries: seq![
                (LayoutType::HorizontalLayout.spec_id(), strategy_of(LayoutType::HorizontalLayout)),
                (LayoutType::MasterLayout.spec_id(), strategy_of(LayoutType::MasterLayout)),
            ],
            current: DEFAULT_LAYOUT,
        }
    }
}

/// Cycling keeps the layouts well-formed.
pub proof fn lemma_cycle_wf(layouts: Layouts)
    requires
        layouts.wf(),
    ensures
        layouts.cycle().wf(),
{
    let position = key_position(layouts.entries, layouts.current.spec_id());
    let len = layouts.entries.len() as int;
    assert(0 <= (position + 1) % len < len) by (nonlinear_arith)
        requires
            0 <= position < len,
    ;
    let next = (position + 1) % len;
    assert(LayoutType::spec_from_id(layouts.entries[next].0).is_some());
    assert(layouts.entries[next].0 == layouts.cycle().current.spec_id());
}

/// The layouts in the order in which they were registered, and the one in use.
pub struct LayoutManager {
    layout_map: IndexMap<u32, LayoutStrategy>,
    current_layout: LayoutType,
}

impl View for LayoutManager {
    type V = Layouts;

    closed spec fn view(&self) -> Layouts {
        Layouts { entries: layout_entries(self.layout_map), current: self.current_layout }
    }
}

impl LayoutManager {
    /// Registers the horizontal partition and the master-and-stack layout, in
    /// that order, and puts the configured default in use. Should the default
    /// not be registered, the first registered layout is in use.
    pub fn new() -> (manager: LayoutManager)
        ensures
            manager@ == Layouts::initial(),
            manager@.wf(),
    {
        let mut map = empty_layout_map();
        insert_layout(
            &mut map,
            LayoutType::HorizontalLayout.id(),
            LayoutStrategy::Horizontal(HorizontalLayout),
        );
        insert_layout(&mut map, LayoutType::MasterLayout.id(), LayoutStrategy::Master(MasterLayout));
        proof {
            let entries = layout_entries(map);
            assert(entries =~= Layouts::initial().entries);
            assert(entries[0].0 == 0 && entries[1].0 == 1);
        }
        let current_layout = if contains_layout(&map, DEFAULT_LAYOUT.id()) {
            DEFAULT_LAYOUT
        } else {
            match layout_at(&map, 0) {
                Some((key, _)) => match LayoutType::from_id(key) {
                    Some(first) => first,
                    None => DEFAULT_LAYOUT,
                },
                None => DEFAULT_LAYOUT,
            }
        };
        LayoutManager { layout_map: map, current_layout }
    }

    /// The strategy of the layout in use.
    pub fn get_current_layout(&self) -> (strategy: LayoutStrategy)
        requires
            self@.wf(),
        ensures
            strategy == self@.strategy(),
    {
        match layout_for(&self.layout_map, self.current_layout.id()) {
            Some(strategy) => strategy,
            None => vstd::pervasive::unreached(),
        }
    }

    /// Puts `layout` in use if it is registered, and changes nothing if not.
    pub fn set_layout(&mut self, layout: LayoutType)
        requires
            old(self)@.wf(),
        ensures
            final(self)@ == old(self)@.set_layout(layout),
            final(self)@.wf(),
    {
        if contains_layout(&self.layout_map, layout.id()) {
            self.current_layout = layout;
        }
    }

    /// Puts the next registered layout in use, the first after the last.
    pub fn cycle_layout(&mut self)
        requires
            old(self)@.wf(),
        ensures
            final(self)@ == old(self)@.cycle(),
            final(self)@.wf(),
    {
        proof {
            lemma_cycle_wf(self@);
        }
        let count = layout_count(&self.layout_map);
        if let Some(current_idx) = layout_index_of(&self.layout_map, self.current_layout.id()) {
            proof {
                let entries = self@.entries;
                let position = key_position(entries, self@.current.spec_id());
                assert(entries[position].0 == entries[current_idx as int].0);
                assert(position == current_idx);
                let len = entries.len() as int;
                assert(0 <= (position + 1) % len < len) by (nonlinear_arith)
                    requires
                        0 <= position < len,
                ;
            }
            let next_idx = (current_idx + 1) % count;
            assert(LayoutType::spec_from_id(self@.entries[next_idx as int].0).is_some());
            if let Some((key, _)) = layout_at(&self.layout_map, next_idx) {
                if let Some(layout) = LayoutType::from_id(key) {
                    self.current_layout = layout;
                }
            }
        }
    }
}

} // verus!
