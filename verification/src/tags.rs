//! The tags known to the journal: every tag of every entry, once, in
//! dictionary order.

use crate::entry::{entry_views, Entry, EntryView};
use crate::text::{lemma_lex_lt_total, lemma_lex_lt_transitive, lex_lt, str_lt};
use vstd::prelude::*;

verus! {

/// `j` is the place of `t` in the sorted tags `v`: behind every tag below
/// `t`, and at the first tag that is not.
pub open spec fn is_tag_slot(v: Seq<Seq<char>>, t: Seq<char>, j: int) -> bool {
    &&& 0 <= j <= v.len()
    &&& forall|k: int| 0 <= k < j ==> lex_lt(#[trigger] v[k], t)
    &&& j < v.len() ==> !lex_lt(v[j], t)
}

/// The place of `t` in `v`.
pub open spec fn tag_slot(v: Seq<Seq<char>>, t: Seq<char>) -> int {
    choose|j: int| is_tag_slot(v, t, j)
}

/// Whether the tag at its place in `v` is `t` itself.
pub open spec fn tag_at_slot(v: Seq<Seq<char>>, t: Seq<char>) -> bool {
    tag_slot(v, t) < v.len() && v[tag_slot(v, t)] == t
}

/// `v` with `t` at its place, unless `t` is there already.
pub open spec fn with_tag(v: Seq<Seq<char>>, t: Seq<char>) -> Seq<Seq<char>> {
    if tag_at_slot(v, t) {
        v
    } else {
        v.insert(tag_slot(v, t), t)
    }
}

/// `v` with each of `tags` at its place.
pub open spec fn with_tags(v: Seq<Seq<char>>, tags: Seq<Seq<char>>) -> Seq<Seq<char>>
    decreases tags.len(),
{
    if tags.len() == 0 {
        v
    } else {
        with_tag(with_tags(v, tags.drop_last()), tags.last())
    }
}

/// Every tag of every entry, once, in dictionary order.
pub open spec fn all_tags(entries: Seq<EntryView>) -> Seq<Seq<char>>
    decreases entries.len(),
{
    if entries.len() == 0 {
        Seq::empty()
    } else {
        with_tags(all_tags(entries.drop_last()), entries.last().tags)
    }
}

/// Every tag stands strictly below all that follow it.
pub open spec fn strictly_sorted(v: Seq<Seq<char>>) -> bool {
    forall|i: int, j: int| 0 <= i < j < v.len() ==> lex_lt(#[trigger] v[i], #[trigger] v[j])
}

/// A tag has one place only.
pub proof fn lemma_tag_slot_is(v: Seq<Seq<char>>, t: Seq<char>, j: int)
    requires
        is_tag_slot(v, t, j),
    ensures
        tag_slot(v, t) == j,
{
    let c = tag_slot(v, t);
    assert(is_tag_slot(v, t, c));
    if c < j {
        assert(lex_lt(v[c], t));
    } else if j < c {
        assert(lex_lt(v[j], t));
    }
}

/// Every tag has a place in every sequence: the scan from `j` on finds it.
proof fn lemma_tag_slot_from(v: Seq<Seq<char>>, t: Seq<char>, j: int)
    requires
        0 <= j <= v.len(),
        forall|k: int| 0 <= k < j ==> lex_lt(#[trigger] v[k], t),
    ensures
        is_tag_slot(v, t, tag_slot(v, t)),
    decreases v.len() - j,
{
    if j < v.len() && lex_lt(v[j], t) {
        lemma_tag_slot_from(v, t, j + 1);
    } else {
        assert(is_tag_slot(v, t, j));
    }
}

/// Adding a tag keeps the tags strictly sorted, adds that tag and no other,
/// and drops none.
pub proof fn lemma_with_tag(v: Seq<Seq<char>>, t: Seq<char>)
    requires
        strictly_sorted(v),
    ensures
        strictly_sorted(with_tag(v, t)),
        forall|x: Seq<char>| with_tag(v, t).contains(x) <==> (v.contains(x) || x == t),
{
    lemma_tag_slot_from(v, t, 0);
    let j = tag_slot(v, t);
    let w = with_tag(v, t);
    if tag_at_slot(v, t) {
        assert(v.contains(t));
    } else {
        assert forall|a: int, b: int| 0 <= a < b < w.len() implies lex_lt(
            #[trigger] w[a],
            #[trigger] w[b],
        ) by {
            if a == j {
                lemma_lex_lt_total(v[j], t);
                if b - 1 > j {
                    lemma_lex_lt_transitive(t, v[j], v[b - 1]);
                }
            } else if b == j {
                assert(lex_lt(v[a], t));
            } else {
                let ra = if a < j { a } else { a - 1 };
                let rb = if b < j { b } else { b - 1 };
                assert(lex_lt(v[ra], v[rb]));
            }
        }
        assert forall|x: Seq<char>| w.contains(x) <==> (v.contains(x) || x == t) by {
            if w.contains(x) {
                let i = choose|i: int| 0 <= i < w.len() && w[i] == x;
                if i < j {
                    assert(v[i] == x);
                } else if i > j {
                    assert(v[i - 1] == x);
                }
            }
            if v.contains(x) {
                let i = choose|i: int| 0 <= i < v.len() && v[i] == x;
                if i < j {
                    assert(w[i] == x);
                } else {
                    assert(w[i + 1] == x);
                }
            }
            if x == t {
                assert(w[j] == x);
            }
        }
    }
}

/// Adding tags keeps the tags strictly sorted, adds those tags and no
/// others, and drops none.
pub proof fn lemma_with_tags(v: Seq<Seq<char>>, tags: Seq<Seq<char>>)
    requires
        strictly_sorted(v),
    ensures
        strictly_sorted(with_tags(v, tags)),
        forall|x: Seq<char>| with_tags(v, tags).contains(x) <==> (v.contains(x) || tags.contains(x)),
    decreases tags.len(),
{
    if tags.len() > 0 {
        let d = tags.drop_last();
        lemma_with_tags(v, d);
        lemma_with_tag(with_tags(v, d), tags.last());
        assert forall|x: Seq<char>| with_tags(v, tags).contains(x) <==> (v.contains(x)
            || tags.contains(x)) by {
            if tags.contains(x) {
                let i = choose|i: int| 0 <= i < tags.len() && tags[i] == x;
                if i < tags.len() - 1 {
                    assert(d[i] == x);
                }
            }
            if d.contains(x) {
                let i = choose|i: int| 0 <= i < d.len() && d[i] == x;
                assert(tags[i] == x);
            }
            assert(tags[tags.len() - 1] == tags.last());
        }
    }
}

/// The known tags are strictly sorted, so none occurs twice, and they are
/// exactly the tags that some entry carries.
pub proof fn lemma_all_tags(entries: Seq<EntryView>)
    ensures
        strictly_sorted(all_tags(entries)),
        forall|x: Seq<char>|
            all_tags(entries).contains(x) <==> exists|i: int|
                0 <= i < entries.len() && (#[trigger] entries[i]).tags.contains(x),
    decreases entries.len(),
{
    if entries.len() > 0 {
        let d = entries.drop_last();
        lemma_all_tags(d);
        lemma_with_tags(all_tags(d), entries.last().tags);
        assert forall|x: Seq<char>|
            all_tags(entries).contains(x) <==> exists|i: int|
                0 <= i < entries.len() && (#[trigger] entries[i]).tags.contains(x) by {
            if all_tags(d).contains(x) {
                let i = choose|i: int| 0 <= i < d.len() && (#[trigger] d[i]).tags.contains(x);
                assert(entries[i].tags.contains(x));
            }
            if entries.last().tags.contains(x) {
                assert(entries[entries.len() - 1].tags.contains(x));
            }
            if exists|i: int| 0 <= i < entries.len() && (#[trigger] entries[i]).tags.contains(x) {
                let i = choose|i: int|
                    0 <= i < entries.len() && (#[trigger] entries[i]).tags.contains(x);
                if i < entries.len() - 1 {
                    assert(d[i].tags.contains(x));
                }
            }
        }
    } else {
        assert forall|x: Seq<char>| !all_tags(entries).contains(x) by {}
    }
}

/// Finds the place of `t` among the sorted tags `v`.
pub fn find_tag_slot(v: &Vec<String>, t: &String) -> (j: usize)
    ensures
        j as int == tag_slot(v.deep_view(), t@),
        is_tag_slot(v.deep_view(), t@, j as int),
{
    let mut j: usize = 0;
    while j < v.len()
        invariant
            j <= v.len(),
            forall|k: int| 0 <= k < j ==> lex_lt(#[trigger] v.deep_view()[k], t@),
        decreases v.len() - j,
    {
        if !str_lt(v[j].as_str(), t.as_str()) {
            proof {
                lemma_tag_slot_is(v.deep_view(), t@, j as int);
            }
            return j;
        }
        j += 1;
    }
    proof {
        lemma_tag_slot_is(v.deep_view(), t@, j as int);
    }
    j
}

/// Puts `t` at its place in the sorted tags `v`, unless it is there.
pub fn insert_tag(v: &mut Vec<String>, t: &String)
    ensures
        final(v).deep_view() == with_tag(old(v).deep_view(), t@),
{
    let j = find_tag_slot(v, t);
    if j < v.len() && v[j] == *t {
        return ;
    }
    let ghost before = v.deep_view();
    v.insert(j, t.clone());
    assert(v.deep_view() =~= before.insert(j as int, t@));
}

/// Collects every tag of every entry, once, in dictionary order.
pub fn collect_tags(entries: &Vec<Entry>) -> (r: Vec<String>)
    ensures
        r.deep_view() == all_tags(entry_views(entries@)),
{
    let mut out: Vec<String> = Vec::new();
    let ghost all = entry_views(entries@);
    assert(all.take(0) =~= Seq::<EntryView>::empty());
    assert(out.deep_view() =~= all_tags(all.take(0)));
    let mut i: usize = 0;
    while i < entries.len()
        invariant
            i <= entries.len(),
            all == entry_views(entries@),
            out.deep_view() == all_tags(all.take(i as int)),
        decreases entries.len() - i,
    {
        let tags = &entries[i].tags;
        let ghost base = out.deep_view();
        assert(tags.deep_view().take(0) =~= Seq::<Seq<char>>::empty());
        let mut k: usize = 0;
        while k < tags.len()
            invariant
                k <= tags.len(),
                out.deep_view() == with_tags(base, tags.deep_view().take(k as int)),
            decreases tags.len() - k,
        {
            insert_tag(&mut out, &tags[k]);
            proof {
                let t = tags.deep_view();
                assert(t.take(k + 1).drop_last() =~= t.take(k as int));
                assert(t.take(k + 1).last() == tags[k as int]@);
            }
            k += 1;
        }
        proof {
            assert(tags.deep_view().take(k as int) =~= tags.deep_view());
            assert(all.take(i + 1).drop_last() =~= all.take(i as int));
            assert(all.take(i + 1).last().tags == tags.deep_view());
        }
        i += 1;
    }
    assert(all.take(i as int) =~= all);
    out
}

} // verus!
