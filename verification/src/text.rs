//! Character-level helpers over strings: the dictionary order used to sort
//! titles and tags, and the substring test used by the free-text filter.

use vstd::prelude::*;
use vstd::std_specs::iter::IteratorSpec;

verus! {

/// `k` is the first position at which `a` and `b` part, and `a` is the lesser
/// there: either `a` ends at `k` while `b` goes on, or the character of `a`
/// at `k` has the smaller code point.
pub open spec fn parts_below_at(a: Seq<char>, b: Seq<char>, k: int) -> bool {
    &&& 0 <= k <= a.len()
    &&& k <= b.len()
    &&& forall|i: int| 0 <= i < k ==> a[i] == b[i]
    &&& k < b.len()
    &&& k < a.len() ==> (a[k] as u32) < (b[k] as u32)
}

/// Strict dictionary order on character sequences, by code point.
pub open spec fn lex_lt(a: Seq<char>, b: Seq<char>) -> bool {
    exists|k: int| parts_below_at(a, b, k)
}

/// `needle` occurs in `hay` starting at position `at`.
pub open spec fn occurs_at(needle: Seq<char>, hay: Seq<char>, at: int) -> bool {
    &&& 0 <= at
    &&& at + needle.len() <= hay.len()
    &&& hay.subrange(at, at + needle.len()) == needle
}

/// `needle` is a contiguous part of `hay`. The empty sequence is part of
/// every sequence.
pub open spec fn is_substring(needle: Seq<char>, hay: Seq<char>) -> bool {
    exists|at: int| occurs_at(needle, hay, at)
}

/// Collects the characters of `s`.
pub fn to_chars(s: &str) -> (v: Vec<char>)
    ensures
        v@ == s@,
{
    let mut v: Vec<char> = Vec::new();
    for c in it: s.chars()
        invariant
            v@ == it.seq().take(it.index() as int),
            it.seq() == s@,
    {
        v.push(c);
    }
    v
}

/// Decides the dictionary order of two strings.
pub fn str_lt(a: &str, b: &str) -> (r: bool)
    ensures
        r == lex_lt(a@, b@),
{
    let mut ia = a.chars();
    let mut ib = b.chars();
    let ghost mut k: int = 0;
    loop
        invariant
            0 <= k <= a@.len(),
            k <= b@.len(),
            ia.remaining() == a@.skip(k),
            ib.remaining() == b@.skip(k),
            ia.obeys_prophetic_iter_laws(),
            ib.obeys_prophetic_iter_laws(),
            forall|i: int| 0 <= i < k ==> a@[i] == b@[i],
        decreases a@.len() - k,
    {
        let ca = ia.next();
        let cb = ib.next();
        match (ca, cb) {
            (None, None) => {
                assert(!lex_lt(a@, b@));
                return false;
            },
            (None, Some(_)) => {
                assert(parts_below_at(a@, b@, k));
                return true;
            },
            (Some(_), None) => {
                assert(!lex_lt(a@, b@));
                return false;
            },
            (Some(x), Some(y)) => {
                assert(x == a@[k] && y == b@[k]);
                if x != y {
                    let below = (x as u32) < (y as u32);
                    proof {
                        if below {
                            assert(parts_below_at(a@, b@, k));
                        } else {
                            assert forall|j: int| !parts_below_at(a@, b@, j) by {
                                if parts_below_at(a@, b@, j) {
                                    if j > k {
                                        assert(a@[k] == b@[k]);
                                    }
                                }
                            }
                        }
                    }
                    return below;
                }
            },
        }
        proof {
            assert(a@.skip(k).drop_first() == a@.skip(k + 1));
            assert(b@.skip(k).drop_first() == b@.skip(k + 1));
            k = k + 1;
        }
    }
}

/// Whether `needle` occurs in `hay` at `at`.
fn matches_at(hay: &Vec<char>, needle: &Vec<char>, at: usize) -> (r: bool)
    requires
        at + needle.len() <= hay.len(),
    ensures
        r == occurs_at(needle@, hay@, at as int),
{
    let n = needle.len();
    let mut i: usize = 0;
    while i < n
        invariant
            n == needle.len(),
            at + n <= hay.len(),
            i <= n,
            forall|j: int| 0 <= j < i ==> hay@[at + j] == needle@[j],
        decreases n - i,
    {
        if hay[at + i] != needle[i] {
            assert(hay@.subrange(at as int, at + n)[i as int] == hay@[at + i]);
            return false;
        }
        i += 1;
    }
    assert(hay@.subrange(at as int, at + n) =~= needle@);
    true
}

/// Decides whether `needle` is a contiguous part of `hay`.
pub fn chars_contain(hay: &Vec<char>, needle: &Vec<char>) -> (r: bool)
    ensures
        r == is_substring(needle@, hay@),
{
    let n = needle.len();
    let h = hay.len();
    if n > h {
        return false;
    }
    let last = h - n;
    let mut at: usize = 0;
    loop
        invariant
            n == needle.len(),
            h == hay.len(),
            last == h - n,
            at <= last,
            forall|j: int| 0 <= j < at ==> !occurs_at(needle@, hay@, j),
        decreases last - at,
    {
        if matches_at(hay, needle, at) {
            return true;
        }
        if at == last {
            return false;
        }
        at += 1;
    }
}

/// Decides whether the string `needle` is a contiguous part of `hay`.
pub fn str_contains(hay: &str, needle: &str) -> (r: bool)
    ensures
        r == is_substring(needle@, hay@),
{
    let h = to_chars(hay);
    let n = to_chars(needle);
    chars_contain(&h, &n)
}

/// No sequence precedes itself.
pub proof fn lemma_lex_lt_irreflexive(a: Seq<char>)
    ensures
        !lex_lt(a, a),
{
}

/// The dictionary order is transitive.
pub proof fn lemma_lex_lt_transitive(a: Seq<char>, b: Seq<char>, c: Seq<char>)
    requires
        lex_lt(a, b),
        lex_lt(b, c),
    ensures
        lex_lt(a, c),
{
    let k1 = choose|k: int| parts_below_at(a, b, k);
    let k2 = choose|k: int| parts_below_at(b, c, k);
    let k = if k1 <= k2 { k1 } else { k2 };
    assert(parts_below_at(a, c, k));
}

/// Two sequences that agree on their first `k` characters are equal or one
/// precedes the other.
proof fn lemma_lex_from(a: Seq<char>, b: Seq<char>, k: int)
    requires
        0 <= k <= a.len(),
        k <= b.len(),
        forall|i: int| 0 <= i < k ==> a[i] == b[i],
    ensures
        a == b || lex_lt(a, b) || lex_lt(b, a),
    decreases a.len() - k,
{
    if k == a.len() && k == b.len() {
        assert(a =~= b);
    } else if k == a.len() {
        assert(parts_below_at(a, b, k));
    } else if k == b.len() {
        assert(parts_below_at(b, a, k));
    } else if a[k] == b[k] {
        lemma_lex_from(a, b, k + 1);
    } else if (a[k] as u32) < (b[k] as u32) {
        assert(parts_below_at(a, b, k));
    } else {
        vstd::utf8::char_u32_cast(a[k], a[k] as u32);
        vstd::utf8::char_u32_cast(b[k], b[k] as u32);
        assert(parts_below_at(b, a, k));
    }
}

/// The dictionary order is total: two different sequences are ordered one
/// way or the other.
pub proof fn lemma_lex_lt_total(a: Seq<char>, b: Seq<char>)
    ensures
        a == b || lex_lt(a, b) || lex_lt(b, a),
{
    lemma_lex_from(a, b, 0);
}

} // verus!
