//! The insertion-ordered dictionary of layout strategies.
//!
//! The dictionary is an `indexmap::IndexMap`. Nothing in this file is proved:
//! each function states what the `indexmap` documentation says of the method
//! it calls, over the sequence of entries that `layout_entries` names.

use crate::layout::LayoutStrategy;
use indexmap::IndexMap;
use vstd::prelude::*;

verus! {

/// `indexmap::IndexMap`, carried as an opaque value.
#[verifier::external_type_specification]
#[verifier::external_body]
#[verifier::reject_recursive_types(K)]
#[verifier::reject_recursive_types(V)]
#[verifier::reject_recursive_types(S)]
pub struct ExIndexMap<K, V, S>(IndexMap<K, V, S>);

/// The key-value pairs that the dictionary holds, in their order.
pub uninterp spec fn layout_entries(map: IndexMap<u32, LayoutStrategy>) -> Seq<
    (u32, LayoutStrategy),
>;

/// Some entry of `entries` has the key `key`.
pub open spec fn has_key(entries: Seq<(u32, LayoutStrategy)>, key: u32) -> bool {
    exists|i: int| 0 <= i < entries.len() && (#[trigger] entries[i]).0 == key
}

/// `IndexMap::default`: a dictionary without entries.
#[verifier::external_body]
pub(crate) fn empty_layout_map() -> (map: IndexMap<u32, LayoutStrategy>)
    ensures
        layout_entries(map) == Seq::<(u32, LayoutStrategy)>::empty(),
{
    IndexMap::default()
}

/// `IndexMap::insert`: where the key is present its entry keeps its place and
/// takes the new value, and the old value is returned; where it is absent the
/// pair becomes the last entry, and nothing is returned.
#[verifier::external_body]
pub(crate) fn insert_layout(
    map: &mut IndexMap<u32, LayoutStrategy>,
    key: u32,
    strategy: LayoutStrategy,
) -> (replaced: Option<LayoutStrategy>)
    ensures
        has_key(layout_entries(*old(map)), key) ==> replaced.is_some() && exists|i: int|
            0 <= i < layout_entries(*old(map)).len() && (#[trigger] layout_entries(
                *old(map),
            )[i]) == (key, replaced.unwrap()) && layout_entries(*final(map)) == layout_entries(
                *old(map),
            ).update(i, (key, strategy)),
        !has_key(layout_entries(*old(map)), key) ==> replaced.is_none() && layout_entries(
            *final(map),
        ) == layout_entries(*old(map)).push((key, strategy)),
{
    map.insert(key, strategy)
}

/// `IndexMap::len`: the number of entries.
#[verifier::external_body]
pub(crate) fn layout_count(map: &IndexMap<u32, LayoutStrategy>) -> (count: usize)
    ensures
        count == layout_entries(*map).len(),
{
    map.len()
}

/// `IndexMap::contains_key`: whether an entry has the key.
#[verifier::external_body]
pub(crate) fn contains_layout(map: &IndexMap<u32, LayoutStrategy>, key: u32) -> (present: bool)
    ensures
        present == has_key(layout_entries(*map), key),
{
    map.contains_key(&key)
}

/// `IndexMap::get`: the value stored under the key, if an entry has it.
#[verifier::external_body]
pub(crate) fn layout_for(map: &IndexMap<u32, LayoutStrategy>, key: u32) -> (found: Option<
    LayoutStrategy,
>)
    ensures
        match found {
            Some(strategy) => exists|i: int|
                0 <= i < layout_entries(*map).len() && (#[trigger] layout_entries(*map)[i]) == (
                    key,
                    strategy,
                ),
            None => !has_key(layout_entries(*map), key),
        },
{
    map.get(&key).copied()
}

/// `IndexMap::get_index_of`: the position of the entry that has the key.
#[verifier::external_body]
pub(crate) fn layout_index_of(map: &IndexMap<u32, LayoutStrategy>, key: u32) -> (found: Option<
    usize,
>)
    ensures
        match found {
            Some(i) => i < layout_entries(*map).len() && layout_entries(*map)[i as int].0 == key,
            None => !has_key(layout_entries(*map), key),
        },
{
    map.get_index_of(&key)
}

/// `IndexMap::get_index`: the entry at a position, if the position is below
/// the number of entries.
#[verifier::external_body]
pub(crate) fn layout_at(map: &IndexMap<u32, LayoutStrategy>, index: usize) -> (found: Option<
    (u32, LayoutStrategy),
>)
    ensures
        found == if index < layout_entries(*map).len() {
            Some(layout_entries(*map)[index as int])
        } else {
            None
        },
{
    map.get_index(index).map(|(key, strategy)| (*key, *strategy))
}

} // verus!
