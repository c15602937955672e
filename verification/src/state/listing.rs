//! Windows listed in a fixed order: by workspace first, by identifier second.

use crate::effect::Window;
use vstd::prelude::*;

verus! {

/// A window's identifier with the number it is ordered by first.
pub type Entry = (usize, u32);

/// `a` comes before `b`: its first number is smaller, or the first numbers
/// are equal and its identifier is smaller.
pub open spec fn entry_lt(a: Entry, b: Entry) -> bool {
    a.0 < b.0 || (a.0 == b.0 && a.1 < b.1)
}

/// Each entry comes before all that follow it.
pub open spec fn strictly_sorted(entries: Seq<Entry>) -> bool {
    forall|i: int, j: int|
        0 <= i < j < entries.len() ==> entry_lt(#[trigger] entries[i], #[trigger] entries[j])
}

/// `entries` holds exactly the members of `set`, in order.
pub open spec fn lists(entries: Seq<Entry>, set: Set<Entry>) -> bool {
    &&& strictly_sorted(entries)
    &&& forall|e: Entry| entries.contains(e) <==> set.contains(e)
}

/// The members of `set` in order.
pub open spec fn sorted_listing(set: Set<Entry>) -> Seq<Entry> {
    choose|entries: Seq<Entry>| lists(entries, set)
}

/// The windows of the entries, in their order.
pub open spec fn windows_of(entries: Seq<Entry>) -> Seq<Window> {
    entries.map_values(|e: Entry| Window { id: e.1 })
}

/// The managed windows as entries: each identifier of the reverse index with
/// the workspace that the index gives for it.
pub open spec fn managed_entries(index: Map<u32, usize>) -> Set<Entry> {
    Set::new(|e: Entry| index.contains_key(e.1) && index[e.1] == e.0)
}

/// The docks as entries, none before another but by its identifier.
pub open spec fn dock_entries(docks: Seq<Window>) -> Set<Entry> {
    Set::new(|e: Entry| e.0 == 0 && docks.contains(Window { id: e.1 }))
}

/// The managed windows, ordered by workspace and then by identifier.
pub open spec fn managed_sorted(index: Map<u32, usize>) -> Seq<Window> {
    windows_of(sorted_listing(managed_entries(index)))
}

/// The docks, ordered by identifier.
pub open spec fn docks_sorted(docks: Seq<Window>) -> Seq<Window> {
    windows_of(sorted_listing(dock_entries(docks)))
}

/// A set has at most one listing.
pub proof fn lemma_listing_unique(a: Seq<Entry>, b: Seq<Entry>, set: Set<Entry>)
    requires
        lists(a, set),
        lists(b, set),
    ensures
        a == b,
    decreases a.len(),
{
    if a.len() == 0 {
        if b.len() > 0 {
            assert(b.contains(b[0]));
            assert(a.contains(b[0]));
        }
        assert(a =~= b);
    } else {
        let m = a.last();
        assert(a.contains(a[a.len() - 1]));
        assert(b.contains(m));
        let k = choose|k: int| 0 <= k < b.len() && b[k] == m;
        if k < b.len() - 1 {
            let top = b[b.len() - 1];
            assert(entry_lt(b[k], top));
            assert(b.contains(top));
            assert(a.contains(top));
            let j = choose|j: int| 0 <= j < a.len() && a[j] == top;
            if j < a.len() - 1 {
                assert(entry_lt(a[j], a[a.len() - 1]));
            }
        }
        let rest = set.remove(m);
        let a0 = a.drop_last();
        let b0 = b.drop_last();
        assert forall|e: Entry| a0.contains(e) <==> rest.contains(e) by {
            if a0.contains(e) {
                let j = choose|j: int| 0 <= j < a0.len() && a0[j] == e;
                assert(a[j] == e);
                assert(entry_lt(a[j], a[a.len() - 1]));
                assert(a.contains(e));
            }
            if rest.contains(e) {
                assert(a.contains(e));
                let j = choose|j: int| 0 <= j < a.len() && a[j] == e;
                assert(a0[j] == e);
            }
        }
        assert forall|e: Entry| b0.contains(e) <==> rest.contains(e) by {
            if b0.contains(e) {
                let j = choose|j: int| 0 <= j < b0.len() && b0[j] == e;
                assert(b[j] == e);
                assert(entry_lt(b[j], b[b.len() - 1]));
                assert(b.contains(e));
            }
            if rest.contains(e) {
                assert(b.contains(e));
                let j = choose|j: int| 0 <= j < b.len() && b[j] == e;
                assert(b0[j] == e);
            }
        }
        assert(strictly_sorted(a0)) by {
            assert forall|i: int, j: int| 0 <= i < j < a0.len() implies entry_lt(
                #[trigger] a0[i],
                #[trigger] a0[j],
            ) by {
                assert(entry_lt(a[i], a[j]));
            }
        }
        assert(strictly_sorted(b0)) by {
            assert forall|i: int, j: int| 0 <= i < j < b0.len() implies entry_lt(
                #[trigger] b0[i],
                #[trigger] b0[j],
            ) by {
                assert(entry_lt(b[i], b[j]));
            }
        }
        lemma_listing_unique(a0, b0, rest);
        assert(a =~= a0.push(m));
        assert(b =~= b0.push(m));
    }
}

/// A sequence that lists a set is the listing of that set.
pub proof fn lemma_is_listing(entries: Seq<Entry>, set: Set<Entry>)
    requires
        lists(entries, set),
    ensures
        sorted_listing(set) == entries,
{
    lemma_listing_unique(sorted_listing(set), entries, set);
}

/// `entries` with `entry` in its place, unless it is there already.
pub open spec fn with_entry(entries: Seq<Entry>, entry: Entry) -> Seq<Entry>
    decreases entries.len(),
{
    if entries.len() == 0 {
        seq![entry]
    } else if entry_lt(entries.last(), entry) {
        entries.push(entry)
    } else if entries.last() == entry {
        entries
    } else {
        with_entry(entries.drop_last(), entry).push(entries.last())
    }
}

/// Putting an entry in its place keeps a list sorted, and adds the entry to
/// its members and nothing else.
pub proof fn lemma_with_entry(entries: Seq<Entry>, entry: Entry)
    requires
        strictly_sorted(entries),
    ensures
        strictly_sorted(with_entry(entries, entry)),
        forall|e: Entry| #[trigger]
            with_entry(entries, entry).contains(e) <==> entries.contains(e) || e == entry,
    decreases entries.len(),
{
    let after = with_entry(entries, entry);
    if entries.len() == 0 {
        assert(after[0] == entry);
    } else if entry_lt(entries.last(), entry) {
        assert forall|i: int, j: int| 0 <= i < j < after.len() implies entry_lt(
            #[trigger] after[i],
            #[trigger] after[j],
        ) by {
            if j == entries.len() {
                if i < entries.len() - 1 {
                    assert(entry_lt(entries[i], entries[entries.len() - 1]));
                }
            } else {
                assert(entry_lt(entries[i], entries[j]));
            }
        }
        assert forall|e: Entry| after.contains(e) <==> entries.contains(e) || e == entry by {
            if entries.contains(e) {
                let k = choose|k: int| 0 <= k < entries.len() && entries[k] == e;
                assert(after[k] == e);
            }
            if e == entry {
                assert(after[entries.len() as int] == e);
            }
            if after.contains(e) {
                let k = choose|k: int| 0 <= k < after.len() && after[k] == e;
                if k < entries.len() {
                    assert(entries[k] == e);
                }
            }
        }
    } else if entries.last() == entry {
        assert(entries[entries.len() - 1] == entry);
    } else {
        let init = entries.drop_last();
        let top = entries.last();
        assert(strictly_sorted(init)) by {
            assert forall|i: int, j: int| 0 <= i < j < init.len() implies entry_lt(
                #[trigger] init[i],
                #[trigger] init[j],
            ) by {
                assert(entry_lt(entries[i], entries[j]));
            }
        }
        lemma_with_entry(init, entry);
        let placed = with_entry(init, entry);
        assert forall|i: int, j: int| 0 <= i < j < after.len() implies entry_lt(
            #[trigger] after[i],
            #[trigger] after[j],
        ) by {
            if j == placed.len() {
                assert(placed.contains(placed[i]));
                if init.contains(placed[i]) {
                    let k = choose|k: int| 0 <= k < init.len() && init[k] == placed[i];
                    assert(entry_lt(entries[k], entries[entries.len() - 1]));
                }
            } else {
                assert(entry_lt(placed[i], placed[j]));
            }
        }
        assert forall|e: Entry| after.contains(e) <==> entries.contains(e) || e == entry by {
            if after.contains(e) {
                let k = choose|k: int| 0 <= k < after.len() && after[k] == e;
                if k < placed.len() {
                    assert(placed[k] == e);
                    assert(placed.contains(e));
                    if init.contains(e) {
                        let m = choose|m: int| 0 <= m < init.len() && init[m] == e;
                        assert(entries[m] == e);
                    }
                } else {
                    assert(entries[entries.len() - 1] == e);
                }
            }
            if entries.contains(e) {
                let k = choose|k: int| 0 <= k < entries.len() && entries[k] == e;
                if k < init.len() {
                    assert(init[k] == e);
                    assert(init.contains(e));
                    assert(placed.contains(e));
                    let m = choose|m: int| 0 <= m < placed.len() && placed[m] == e;
                    assert(after[m] == e);
                } else {
                    assert(after[placed.len() as int] == e);
                }
            }
            if e == entry {
                assert(placed.contains(e));
                let m = choose|m: int| 0 <= m < placed.len() && placed[m] == e;
                assert(after[m] == e);
            }
        }
    }
}

/// Every finite set has a listing: its members, each once, in order.
pub proof fn lemma_listing_exists(set: Set<Entry>)
    requires
        set.finite(),
    ensures
        lists(sorted_listing(set), set),
    decreases set.len(),
{
    if set.len() == 0 {
        assert(set =~= Set::empty());
        assert(lists(Seq::<Entry>::empty(), set));
    } else {
        let e = set.choose();
        let rest = set.remove(e);
        lemma_listing_exists(rest);
        let listed = sorted_listing(rest);
        lemma_with_entry(listed, e);
        assert(lists(with_entry(listed, e), set));
    }
}

/// The listing of the managed windows: each window of the reverse index
/// occurs in it once, and a window comes before another if its workspace has
/// the smaller number, or the same number and its identifier is smaller.
pub proof fn lemma_managed_sorted(index: Map<u32, usize>)
    requires
        index.dom().finite(),
    ensures
        forall|id: u32| index.contains_key(id) <==> managed_sorted(index).contains(Window { id }),
        forall|i: int, j: int|
            0 <= i < j < managed_sorted(index).len() ==> entry_lt(
                (
                    index[(#[trigger] managed_sorted(index)[i]).id],
                    managed_sorted(index)[i].id,
                ),
                (
                    index[(#[trigger] managed_sorted(index)[j]).id],
                    managed_sorted(index)[j].id,
                ),
            ),
{
    let set = managed_entries(index);
    let image = index.dom().map(|id: u32| (index[id], id));
    index.dom().lemma_map_finite(|id: u32| (index[id], id));
    assert(set =~= image) by {
        assert forall|e: Entry| set.contains(e) == image.contains(e) by {
            if set.contains(e) {
                assert(index.dom().contains(e.1));
            }
        }
    }
    lemma_listing_exists(set);
    let entries = sorted_listing(set);
    let windows = managed_sorted(index);
    assert forall|id: u32| index.contains_key(id) <==> windows.contains(Window { id }) by {
        if index.contains_key(id) {
            let e: Entry = (index[id], id);
            assert(set.contains(e));
            assert(entries.contains(e));
            let k = choose|k: int| 0 <= k < entries.len() && entries[k] == e;
            assert(windows[k] == Window { id });
        }
        if windows.contains(Window { id }) {
            let k = choose|k: int| 0 <= k < windows.len() && windows[k] == Window { id };
            assert(entries.contains(entries[k]));
        }
    }
    assert forall|i: int, j: int| 0 <= i < j < windows.len() implies entry_lt(
        (index[(#[trigger] windows[i]).id], windows[i].id),
        (index[(#[trigger] windows[j]).id], windows[j].id),
    ) by {
        assert(entries.contains(entries[i]));
        assert(entries.contains(entries[j]));
        assert(entry_lt(entries[i], entries[j]));
    }
}

/// The listing of the docks: each dock occurs in it once, and a dock comes
/// before another if its identifier is smaller.
pub proof fn lemma_docks_sorted(docks: Seq<Window>)
    ensures
        forall|w: Window| docks.contains(w) <==> docks_sorted(docks).contains(w),
        forall|i: int, j: int|
            0 <= i < j < docks_sorted(docks).len() ==> (#[trigger] docks_sorted(docks)[i]).id < (
            #[trigger] docks_sorted(docks)[j]).id,
{
    let set = dock_entries(docks);
    let image = docks.to_set().map(|w: Window| (0usize, w.id));
    vstd::seq_lib::seq_to_set_is_finite(docks);
    docks.to_set().lemma_map_finite(|w: Window| (0usize, w.id));
    assert(set =~= image) by {
        assert forall|e: Entry| set.contains(e) == image.contains(e) by {
            if set.contains(e) {
                assert(docks.to_set().contains(Window { id: e.1 }));
            }
        }
    }
    lemma_listing_exists(set);
    let entries = sorted_listing(set);
    let windows = docks_sorted(docks);
    assert forall|w: Window| docks.contains(w) <==> windows.contains(w) by {
        if docks.contains(w) {
            let e: Entry = (0usize, w.id);
            assert(set.contains(e));
            assert(entries.contains(e));
            let k = choose|k: int| 0 <= k < entries.len() && entries[k] == e;
            assert(windows[k] == w);
        }
        if windows.contains(w) {
            let k = choose|k: int| 0 <= k < windows.len() && windows[k] == w;
            assert(entries.contains(entries[k]));
        }
    }
    assert forall|i: int, j: int| 0 <= i < j < windows.len() implies (#[trigger] windows[i]).id < (
    #[trigger] windows[j]).id by {
        assert(entries.contains(entries[i]));
        assert(entries.contains(entries[j]));
        assert(entry_lt(entries[i], entries[j]));
    }
}

/// Whether `a` comes before `b`.
fn entry_before(a: Entry, b: Entry) -> (before: bool)
    ensures
        before == entry_lt(a, b),
{
    a.0 < b.0 || (a.0 == b.0 && a.1 < b.1)
}

/// Puts `entry` in its place in a sorted list, unless it is there already.
pub(crate) fn insert_sorted(list: &mut Vec<Entry>, entry: Entry)
    requires
        strictly_sorted(old(list)@),
    ensures
        strictly_sorted(final(list)@),
        forall|e: Entry| final(list)@.contains(e) <==> old(list)@.contains(e) || e == entry,
{
    let mut pos: usize = 0;
    while pos < list.len() && entry_before(list[pos], entry)
        invariant
            pos <= list@.len(),
            list@ == old(list)@,
            forall|j: int| 0 <= j < pos ==> entry_lt(#[trigger] list@[j], entry),
        decreases list@.len() - pos,
    {
        pos = pos + 1;
    }
    let ghost before = list@;
    if pos < list.len() && list[pos].0 == entry.0 && list[pos].1 == entry.1 {
        assert(before[pos as int] == entry);
        assert(before.contains(entry));
        return ;
    }
    list.insert(pos, entry);
    proof {
        let after = list@;
        assert forall|i: int, j: int| 0 <= i < j < after.len() implies entry_lt(
            #[trigger] after[i],
            #[trigger] after[j],
        ) by {
            let si = if i < pos {
                i
            } else {
                i - 1
            };
            let sj = if j < pos {
                j
            } else {
                j - 1
            };
            if i == pos {
                assert(after[j] == before[sj]);
                assert(pos <= sj);
                if sj > pos {
                    assert(entry_lt(before[pos as int], before[sj]));
                }
            } else if j == pos {
                assert(after[i] == before[si]);
            } else {
                assert(after[i] == before[si]);
                assert(after[j] == before[sj]);
                assert(entry_lt(before[si], before[sj]));
            }
        }
        assert forall|e: Entry| after.contains(e) <==> before.contains(e) || e == entry by {
            if after.contains(e) {
                let j = choose|j: int| 0 <= j < after.len() && after[j] == e;
                if j < pos {
                    assert(before[j] == e);
                } else if j > pos {
                    assert(before[j - 1] == e);
                }
            }
            if before.contains(e) {
                let j = choose|j: int| 0 <= j < before.len() && before[j] == e;
                if j < pos {
                    assert(after[j] == e);
                } else {
                    assert(after[j + 1] == e);
                }
            }
            if e == entry {
                assert(after[pos as int] == e);
            }
        }
    }
}

/// The windows of the entries, in their order.
pub(crate) fn entry_windows(entries: &Vec<Entry>) -> (windows: Vec<Window>)
    ensures
        windows@ == windows_of(entries@),
{
    let mut windows: Vec<Window> = Vec::new();
    let mut i: usize = 0;
    while i < entries.len()
        invariant
            i <= entries@.len(),
            windows@.len() == i,
            forall|j: int| 0 <= j < i ==> windows@[j] == (Window { id: entries@[j].1 }),
        decreases entries@.len() - i,
    {
        windows.push(Window::new(entries[i].1));
        i = i + 1;
    }
    assert(windows@ =~= windows_of(entries@));
    windows
}

} // verus!
