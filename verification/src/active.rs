//! The active view: the entries that pass the filter, in the order of the
//! sorter. It is derived from the store on demand and never kept.

use crate::entry::{entry_views, Entry, EntryView};
use crate::filter::{admits, filter_admits, filter_view, Filter, FilterView};
use crate::sorter::Sorter;
use vstd::prelude::*;

verus! {

/// The entries of `entries` that pass `filter`, in their stored order.
pub open spec fn admitted(entries: Seq<EntryView>, filter: Option<FilterView>) -> Seq<EntryView> {
    entries.filter(|e: EntryView| admits(filter, e))
}

/// `j` is the place of `e` in the sorted sequence `v`: behind every entry
/// that `e` does not precede, and in front of the first one that it does.
pub open spec fn is_slot(sorter: Sorter, v: Seq<EntryView>, e: EntryView, j: int) -> bool {
    &&& 0 <= j <= v.len()
    &&& forall|k: int| 0 <= k < j ==> !sorter.precedes(e, #[trigger] v[k])
    &&& j < v.len() ==> sorter.precedes(e, v[j])
}

/// The place of `e` in `v`.
pub open spec fn slot(sorter: Sorter, v: Seq<EntryView>, e: EntryView) -> int {
    choose|j: int| is_slot(sorter, v, e, j)
}

/// The entries of `s` put in the order of `sorter`, one after the other,
/// each at its place among those before it.
pub open spec fn arrange(sorter: Sorter, s: Seq<EntryView>) -> Seq<EntryView>
    decreases s.len(),
{
    if s.len() == 0 {
        Seq::empty()
    } else {
        let rest = arrange(sorter, s.drop_last());
        rest.insert(slot(sorter, rest, s.last()), s.last())
    }
}

/// The active view of a store under a filter and a sorter.
pub open spec fn active_view(
    entries: Seq<EntryView>,
    filter: Option<FilterView>,
    sorter: Sorter,
) -> Seq<EntryView> {
    arrange(sorter, admitted(entries, filter))
}

/// The views of a sequence of borrowed entries, in order.
pub open spec fn borrowed_views(s: Seq<&Entry>) -> Seq<EntryView> {
    s.map_values(|e: &Entry| e@)
}

/// The ids of a sequence of entries, in order.
pub open spec fn ids_of(s: Seq<EntryView>) -> Seq<u32> {
    s.map_values(|e: EntryView| e.id)
}

/// An entry has one place only.
pub proof fn lemma_slot_is(sorter: Sorter, v: Seq<EntryView>, e: EntryView, j: int)
    requires
        is_slot(sorter, v, e, j),
    ensures
        slot(sorter, v, e) == j,
{
    let c = slot(sorter, v, e);
    assert(is_slot(sorter, v, e, c));
    if c < j {
        assert(!sorter.precedes(e, v[c]));
    } else if j < c {
        assert(!sorter.precedes(e, v[j]));
    }
}

/// Every entry has a place in every sequence: the scan from `j` on finds it.
proof fn lemma_slot_from(sorter: Sorter, v: Seq<EntryView>, e: EntryView, j: int)
    requires
        0 <= j <= v.len(),
        forall|k: int| 0 <= k < j ==> !sorter.precedes(e, #[trigger] v[k]),
    ensures
        is_slot(sorter, v, e, slot(sorter, v, e)),
    decreases v.len() - j,
{
    if j < v.len() && !sorter.precedes(e, v[j]) {
        lemma_slot_from(sorter, v, e, j + 1);
    } else {
        assert(is_slot(sorter, v, e, j));
    }
}

/// Putting an entry at its place keeps a sorted sequence sorted.
proof fn lemma_insert_sorted(sorter: Sorter, v: Seq<EntryView>, e: EntryView, j: int)
    requires
        sorter.sorted(v),
        is_slot(sorter, v, e, j),
    ensures
        sorter.sorted(v.insert(j, e)),
{
    let w = v.insert(j, e);
    assert forall|a: int, b: int| 0 <= a < b < w.len() implies !sorter.precedes(w[b], w[a]) by {
        if a == j {
            sorter.lemma_connected(e, v[j]);
            if b - 1 > j {
                sorter.lemma_not_after_transitive(e, v[j], v[b - 1]);
            }
        } else if b == j {
            assert(!sorter.precedes(e, v[a]));
        }
    }
}

/// The arranged sequence is sorted: no entry comes before an earlier one.
pub proof fn lemma_arrange_sorted(sorter: Sorter, s: Seq<EntryView>)
    ensures
        sorter.sorted(arrange(sorter, s)),
    decreases s.len(),
{
    if s.len() > 0 {
        let rest = arrange(sorter, s.drop_last());
        lemma_arrange_sorted(sorter, s.drop_last());
        lemma_slot_from(sorter, rest, s.last(), 0);
        lemma_insert_sorted(sorter, rest, s.last(), slot(sorter, rest, s.last()));
    }
}

/// Arranging neither drops nor adds an entry: the arranged sequence holds
/// each entry as often as the given one.
pub proof fn lemma_arrange_permutes(sorter: Sorter, s: Seq<EntryView>)
    ensures
        arrange(sorter, s).to_multiset() == s.to_multiset(),
        arrange(sorter, s).len() == s.len(),
        forall|e: EntryView| arrange(sorter, s).contains(e) <==> s.contains(e),
    decreases s.len(),
{
    broadcast use vstd::seq_lib::to_multiset_contains;

    if s.len() > 0 {
        let rest = arrange(sorter, s.drop_last());
        lemma_arrange_permutes(sorter, s.drop_last());
        lemma_slot_from(sorter, rest, s.last(), 0);
        vstd::seq_lib::to_multiset_insert(rest, slot(sorter, rest, s.last()), s.last());
        vstd::seq_lib::to_multiset_build(s.drop_last(), s.last());
        assert(s.drop_last().push(s.last()) =~= s);
    }
    assert forall|e: EntryView| arrange(sorter, s).contains(e) <==> s.contains(e) by {
        assert(arrange(sorter, s).to_multiset().count(e) == s.to_multiset().count(e));
    }
}

/// Where no two entries share an id, arranging keeps it so.
pub proof fn lemma_arrange_distinct_ids(sorter: Sorter, s: Seq<EntryView>)
    requires
        ids_of(s).no_duplicates(),
    ensures
        ids_of(arrange(sorter, s)).no_duplicates(),
    decreases s.len(),
{
    if s.len() > 0 {
        let d = s.drop_last();
        let last = s.last();
        let rest = arrange(sorter, d);
        assert forall|a: int, b: int| 0 <= a < d.len() && 0 <= b < d.len() && a != b implies ids_of(
            d,
        )[a] != ids_of(d)[b] by {
            assert(ids_of(s)[a] != ids_of(s)[b]);
        }
        lemma_arrange_distinct_ids(sorter, d);
        lemma_arrange_permutes(sorter, d);
        lemma_slot_from(sorter, rest, last, 0);
        let j = slot(sorter, rest, last);
        let w = rest.insert(j, last);
        assert forall|k: int| 0 <= k < rest.len() implies rest[k].id != last.id by {
            assert(rest.contains(rest[k]));
            assert(d.contains(rest[k]));
            let m = choose|m: int| 0 <= m < d.len() && d[m] == rest[k];
            assert(ids_of(s)[m] != ids_of(s)[s.len() - 1]);
        }
        assert forall|a: int, b: int| 0 <= a < w.len() && 0 <= b < w.len() && a != b implies ids_of(
            w,
        )[a] != ids_of(w)[b] by {
            let ra = if a < j { a } else { a - 1 };
            let rb = if b < j { b } else { b - 1 };
            if a != j && b != j {
                assert(ids_of(rest)[ra] != ids_of(rest)[rb]);
            }
        }
    }
}

/// Where no two entries share an id, the arranged sequence is strictly
/// sorted: every entry precedes all that come after it.
pub proof fn lemma_arrange_strict(sorter: Sorter, s: Seq<EntryView>)
    requires
        ids_of(s).no_duplicates(),
    ensures
        forall|i: int, j: int|
            0 <= i < j < s.len() ==> sorter.precedes(
                #[trigger] arrange(sorter, s)[i],
                #[trigger] arrange(sorter, s)[j],
            ),
{
    let v = arrange(sorter, s);
    lemma_arrange_sorted(sorter, s);
    lemma_arrange_distinct_ids(sorter, s);
    lemma_arrange_permutes(sorter, s);
    assert forall|i: int, j: int| 0 <= i < j < s.len() implies sorter.precedes(
        #[trigger] v[i],
        #[trigger] v[j],
    ) by {
        assert(ids_of(v)[i] != ids_of(v)[j]);
        sorter.lemma_connected(v[i], v[j]);
    }
}

/// Every entry of `v` precedes all that come after it.
pub open spec fn strictly_sorted(sorter: Sorter, v: Seq<EntryView>) -> bool {
    forall|i: int, j: int| 0 <= i < j < v.len() ==> sorter.precedes(#[trigger] v[i], #[trigger] v[j])
}

/// Filtering keeps the ids distinct.
pub proof fn lemma_admitted_distinct_ids(entries: Seq<EntryView>, filter: Option<FilterView>)
    requires
        ids_of(entries).no_duplicates(),
    ensures
        ids_of(admitted(entries, filter)).no_duplicates(),
    decreases entries.len(),
{
    let pred = |e: EntryView| admits(filter, e);
    reveal(Seq::filter);
    if entries.len() > 0 {
        let d = entries.drop_last();
        let last = entries.last();
        assert forall|a: int, b: int| 0 <= a < d.len() && 0 <= b < d.len() && a != b implies ids_of(
            d,
        )[a] != ids_of(d)[b] by {
            assert(ids_of(entries)[a] != ids_of(entries)[b]);
        }
        lemma_admitted_distinct_ids(d, filter);
        let kept = d.filter(pred);
        if pred(last) {
            let w = kept.push(last);
            assert forall|a: int, b: int|
                0 <= a < w.len() && 0 <= b < w.len() && a != b implies ids_of(w)[a] != ids_of(
                w,
            )[b] by {
                if a < kept.len() && b < kept.len() {
                    assert(ids_of(kept)[a] != ids_of(kept)[b]);
                } else {
                    let k = if a < kept.len() { a } else { b };
                    assert(kept.contains(kept[k]));
                    d.lemma_filter_contains_rev(pred, kept[k]);
                    let m = choose|m: int| 0 <= m < d.len() && d[m] == kept[k];
                    assert(ids_of(entries)[m] != ids_of(entries)[entries.len() - 1]);
                }
            }
        }
    }
}

/// In a store without a shared id the active view is strictly sorted, and
/// no two of its entries share an id.
pub proof fn lemma_active_view_strict(
    entries: Seq<EntryView>,
    filter: Option<FilterView>,
    sorter: Sorter,
)
    requires
        ids_of(entries).no_duplicates(),
    ensures
        strictly_sorted(sorter, active_view(entries, filter, sorter)),
        ids_of(active_view(entries, filter, sorter)).no_duplicates(),
{
    let kept = admitted(entries, filter);
    lemma_admitted_distinct_ids(entries, filter);
    lemma_arrange_strict(sorter, kept);
    lemma_arrange_distinct_ids(sorter, kept);
    lemma_arrange_permutes(sorter, kept);
}

/// Two strictly sorted sequences with the same entries are the same
/// sequence.
pub proof fn lemma_strictly_sorted_is_unique(sorter: Sorter, a: Seq<EntryView>, b: Seq<EntryView>)
    requires
        strictly_sorted(sorter, a),
        strictly_sorted(sorter, b),
        forall|e: EntryView| a.contains(e) <==> b.contains(e),
    ensures
        a == b,
    decreases a.len(),
{
    if a.len() == 0 {
        if b.len() > 0 {
            assert(b.contains(b[0]));
        }
        assert(a =~= b);
    } else if b.len() == 0 {
        assert(a.contains(a[0]));
    } else {
        assert(a.contains(a[0]));
        assert(b.contains(b[0]));
        let k = choose|k: int| 0 <= k < b.len() && b[k] == a[0];
        let m = choose|m: int| 0 <= m < a.len() && a[m] == b[0];
        sorter.lemma_connected(a[0], b[0]);
        sorter.lemma_irreflexive(a[0]);
        assert(a[0] == b[0]);
        let ta = a.drop_first();
        let tb = b.drop_first();
        assert forall|e: EntryView| ta.contains(e) <==> tb.contains(e) by {
            sorter.lemma_irreflexive(e);
            if ta.contains(e) {
                let i = choose|i: int| 0 <= i < ta.len() && ta[i] == e;
                assert(a[i + 1] == e);
                assert(sorter.precedes(a[0], a[i + 1]));
                assert(a.contains(e));
                let j = choose|j: int| 0 <= j < b.len() && b[j] == e;
                assert(tb[j - 1] == e);
            }
            if tb.contains(e) {
                let i = choose|i: int| 0 <= i < tb.len() && tb[i] == e;
                assert(b[i + 1] == e);
                assert(sorter.precedes(b[0], b[i + 1]));
                assert(b.contains(e));
                let j = choose|j: int| 0 <= j < a.len() && a[j] == e;
                assert(ta[j - 1] == e);
            }
        }
        assert forall|i: int, j: int| 0 <= i < j < ta.len() implies sorter.precedes(
            #[trigger] ta[i],
            #[trigger] ta[j],
        ) by {
            assert(sorter.precedes(a[i + 1], a[j + 1]));
        }
        assert forall|i: int, j: int| 0 <= i < j < tb.len() implies sorter.precedes(
            #[trigger] tb[i],
            #[trigger] tb[j],
        ) by {
            assert(sorter.precedes(b[i + 1], b[j + 1]));
        }
        lemma_strictly_sorted_is_unique(sorter, ta, tb);
        assert(a =~= seq![a[0]] + ta);
        assert(b =~= seq![b[0]] + tb);
    }
}

/// What the active view is. In a store without a shared id, a sequence is
/// the active view if and only if it is strictly sorted and holds exactly
/// the stored entries that pass the filter.
pub proof fn lemma_active_view_is_the_sorted_selection(
    entries: Seq<EntryView>,
    filter: Option<FilterView>,
    sorter: Sorter,
    v: Seq<EntryView>,
)
    requires
        ids_of(entries).no_duplicates(),
    ensures
        v == active_view(entries, filter, sorter) <==> (strictly_sorted(sorter, v) && forall|
            e: EntryView,
        |
            v.contains(e) <==> entries.contains(e) && admits(filter, e)),
{
    let w = active_view(entries, filter, sorter);
    lemma_active_view_strict(entries, filter, sorter);
    assert forall|e: EntryView| w.contains(e) <==> entries.contains(e) && admits(filter, e) by {
        lemma_active_view_members(entries, filter, sorter, e);
    }
    if strictly_sorted(sorter, v) && forall|e: EntryView|
        v.contains(e) <==> entries.contains(e) && admits(filter, e) {
        lemma_strictly_sorted_is_unique(sorter, v, w);
    }
}

/// The active view holds exactly the stored entries that pass the filter.
pub proof fn lemma_active_view_members(
    entries: Seq<EntryView>,
    filter: Option<FilterView>,
    sorter: Sorter,
    e: EntryView,
)
    ensures
        active_view(entries, filter, sorter).contains(e) <==> entries.contains(e) && admits(
            filter,
            e,
        ),
{
    let pred = |e: EntryView| admits(filter, e);
    let kept = entries.filter(pred);
    lemma_arrange_permutes(sorter, kept);
    if kept.contains(e) {
        entries.lemma_filter_contains_rev(pred, e);
        let i = kept.index_of(e);
        entries.lemma_filter_pred(pred, i);
    }
    if entries.contains(e) && admits(filter, e) {
        let i = entries.index_of(e);
        entries.lemma_filter_contains(pred, i);
    }
}

/// Finds the place of `e` among the sorted entries `v`.
fn find_slot(sorter: &Sorter, v: &Vec<&Entry>, e: &Entry) -> (j: usize)
    ensures
        is_slot(*sorter, borrowed_views(v@), e@, j as int),
{
    let mut j: usize = 0;
    while j < v.len()
        invariant
            j <= v.len(),
            forall|k: int| 0 <= k < j ==> !sorter.precedes(e@, #[trigger] borrowed_views(v@)[k]),
        decreases v.len() - j,
    {
        if sorter.entry_precedes(e, v[j]) {
            return j;
        }
        j += 1;
    }
    j
}

/// Computes the active view: the entries that pass `filter`, in the order of
/// `sorter`.
pub fn arrange_entries<'a>(entries: &'a Vec<Entry>, filter: &Option<Filter>, sorter: &Sorter) -> (r:
    Vec<&'a Entry>)
    ensures
        borrowed_views(r@) == active_view(entry_views(entries@), filter_view(*filter), *sorter),
{
    let mut out: Vec<&'a Entry> = Vec::new();
    let ghost all = entry_views(entries@);
    let ghost pred = |e: EntryView| admits(filter_view(*filter), e);
    proof {
        assert(all.take(0) =~= Seq::<EntryView>::empty());
        reveal(Seq::filter);
        assert(borrowed_views(out@) =~= arrange(*sorter, all.take(0).filter(pred)));
    }
    let mut i: usize = 0;
    while i < entries.len()
        invariant
            i <= entries.len(),
            all == entry_views(entries@),
            pred == (|e: EntryView| admits(filter_view(*filter), e)),
            borrowed_views(out@) == arrange(*sorter, all.take(i as int).filter(pred)),
        decreases entries.len() - i,
    {
        let e = &entries[i];
        proof {
            assert(all.take(i + 1) =~= all.take(i as int).push(e@));
            Seq::lemma_filter_push(all.take(i as int), e@, pred);
        }
        if filter_admits(filter, e) {
            let j = find_slot(sorter, &out, e);
            let ghost before = borrowed_views(out@);
            let ghost kept = all.take(i as int).filter(pred);
            out.insert(j, e);
            proof {
                lemma_slot_is(*sorter, before, e@, j as int);
                assert(borrowed_views(out@) =~= before.insert(j as int, e@));
                assert(kept.push(e@).drop_last() =~= kept);
            }
        }
        i += 1;
    }
    proof {
        assert(all.take(i as int) =~= all);
    }
    out
}

} // verus!
