//! The order in which the journal shows its entries.

use crate::entry::{Entry, EntryView};
use crate::text::{lemma_lex_lt_irreflexive, lemma_lex_lt_total, lemma_lex_lt_transitive, lex_lt, str_lt};
use vstd::prelude::*;

verus! {

/// The field by which entries are ordered.
#[derive(Debug, Clone, Copy, PartialEq, Eq, Structural)]
pub enum SortKey {
    Date,
    Title,
}

/// The direction in which the sort key runs.
#[derive(Debug, Clone, Copy, PartialEq, Eq, Structural)]
pub enum SortDirection {
    Ascending,
    Descending,
}

/// A total order over entries: by key in the chosen direction, and by
/// ascending id among entries whose keys are equal.
#[derive(Debug, Clone, Copy, PartialEq, Eq, Structural)]
pub struct Sorter {
    pub key: SortKey,
    pub direction: SortDirection,
}

impl Sorter {
    /// Whether the key of `a` is strictly smaller than the key of `b`.
    pub open spec fn key_before(self, a: EntryView, b: EntryView) -> bool {
        match self.key {
            SortKey::Date => a.date.before(b.date),
            SortKey::Title => lex_lt(a.title, b.title),
        }
    }

    /// Whether `a` comes strictly before `b` in the order of this sorter.
    pub open spec fn precedes(self, a: EntryView, b: EntryView) -> bool {
        match self.direction {
            SortDirection::Ascending => self.key_before(a, b) || (!self.key_before(b, a) && a.id
                < b.id),
            SortDirection::Descending => self.key_before(b, a) || (!self.key_before(a, b) && a.id
                < b.id),
        }
    }

    /// No entry of `s` comes before an earlier one.
    pub open spec fn sorted(self, s: Seq<EntryView>) -> bool {
        forall|i: int, j: int| 0 <= i < j < s.len() ==> !self.precedes(s[j], s[i])
    }

    /// The order of a journal that has no saved preference: newest first.
    pub open spec fn newest_first() -> Sorter {
        Sorter { key: SortKey::Date, direction: SortDirection::Descending }
    }

    pub fn new(key: SortKey, direction: SortDirection) -> (r: Self)
        ensures
            r == (Sorter { key, direction }),
    {
        Sorter { key, direction }
    }

    fn key_is_before(&self, a: &Entry, b: &Entry) -> (r: bool)
        ensures
            r == self.key_before(a@, b@),
    {
        match self.key {
            SortKey::Date => a.date.is_before(&b.date),
            SortKey::Title => str_lt(a.title.as_str(), b.title.as_str()),
        }
    }

    /// Decides whether `a` comes strictly before `b`.
    pub fn entry_precedes(&self, a: &Entry, b: &Entry) -> (r: bool)
        ensures
            r == self.precedes(a@, b@),
    {
        match self.direction {
            SortDirection::Ascending => self.key_is_before(a, b) || (!self.key_is_before(b, a)
                && a.id < b.id),
            SortDirection::Descending => self.key_is_before(b, a) || (!self.key_is_before(a, b)
                && a.id < b.id),
        }
    }

    /// The key order never puts an entry before itself.
    pub proof fn lemma_key_irreflexive(self, a: EntryView)
        ensures
            !self.key_before(a, a),
    {
        lemma_lex_lt_irreflexive(a.title);
    }

    /// The key order is transitive.
    pub proof fn lemma_key_transitive(self, a: EntryView, b: EntryView, c: EntryView)
        requires
            self.key_before(a, b),
            self.key_before(b, c),
        ensures
            self.key_before(a, c),
    {
        if self.key == SortKey::Title {
            lemma_lex_lt_transitive(a.title, b.title, c.title);
        }
    }

    /// Entries that the key order does not separate stand in the same
    /// relation to every third entry.
    pub proof fn lemma_key_ties(self, a: EntryView, b: EntryView, c: EntryView)
        requires
            !self.key_before(a, b),
            !self.key_before(b, a),
        ensures
            self.key_before(a, c) == self.key_before(b, c),
            self.key_before(c, a) == self.key_before(c, b),
    {
        if self.key == SortKey::Title {
            lemma_lex_lt_total(a.title, b.title);
        }
    }

    /// The key order never puts two entries before each other.
    pub proof fn lemma_key_asymmetric(self, a: EntryView, b: EntryView)
        ensures
            !(self.key_before(a, b) && self.key_before(b, a)),
    {
        if self.key_before(a, b) && self.key_before(b, a) {
            self.lemma_key_transitive(a, b, a);
            self.lemma_key_irreflexive(a);
        }
    }

    /// No entry precedes itself.
    pub proof fn lemma_irreflexive(self, a: EntryView)
        ensures
            !self.precedes(a, a),
    {
        self.lemma_key_irreflexive(a);
    }

    /// The order is transitive.
    pub proof fn lemma_transitive(self, a: EntryView, b: EntryView, c: EntryView)
        requires
            self.precedes(a, b),
            self.precedes(b, c),
        ensures
            self.precedes(a, c),
    {
        self.lemma_key_asymmetric(a, b);
        self.lemma_key_asymmetric(b, c);
        self.lemma_key_asymmetric(a, c);
        if !self.key_before(a, b) && !self.key_before(b, a) {
            self.lemma_key_ties(a, b, c);
        }
        if !self.key_before(b, c) && !self.key_before(c, b) {
            self.lemma_key_ties(b, c, a);
        }
        if self.key_before(a, b) && self.key_before(b, c) {
            self.lemma_key_transitive(a, b, c);
        }
        if self.key_before(c, b) && self.key_before(b, a) {
            self.lemma_key_transitive(c, b, a);
        }
    }

    /// Two entries never precede each other, and of two entries with
    /// different ids one precedes the other.
    pub proof fn lemma_connected(self, a: EntryView, b: EntryView)
        ensures
            !(self.precedes(a, b) && self.precedes(b, a)),
            a.id != b.id ==> self.precedes(a, b) || self.precedes(b, a),
    {
        self.lemma_key_asymmetric(a, b);
    }

    /// If `b` does not precede `a` and `c` does not precede `b`, then `c`
    /// does not precede `a`.
    pub proof fn lemma_not_after_transitive(self, a: EntryView, b: EntryView, c: EntryView)
        requires
            !self.precedes(b, a),
            !self.precedes(c, b),
        ensures
            !self.precedes(c, a),
    {
        if self.precedes(c, a) {
            if self.precedes(a, b) {
                self.lemma_transitive(c, a, b);
            } else {
                self.lemma_key_asymmetric(a, b);
                self.lemma_key_ties(a, b, c);
            }
        }
    }
}

impl Default for Sorter {
    /// Newest entries first.
    fn default() -> (r: Self)
        ensures
            r == Sorter::newest_first(),
    {
        Sorter { key: SortKey::Date, direction: SortDirection::Descending }
    }
}

} // verus!
