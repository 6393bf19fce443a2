//! The predicate that narrows the journal to the entries the user wants to
//! see.

use crate::entry::{copy_strings, Entry, EntryView};
use crate::text::{is_substring, occurs_at, str_contains};
use vstd::prelude::*;

verus! {

/// What a filter holds.
pub struct FilterView {
    pub tags: Seq<Seq<char>>,
    pub text: Seq<char>,
}

/// Whether some tag of `wanted` is among `tags`.
pub open spec fn shares_tag(wanted: Seq<Seq<char>>, tags: Seq<Seq<char>>) -> bool {
    exists|i: int, j: int|
        0 <= i < wanted.len() && 0 <= j < tags.len() && #[trigger] wanted[i] == #[trigger] tags[j]
}

impl FilterView {
    /// An entry passes the tag part if no tag is selected or if it carries
    /// at least one selected tag.
    pub open spec fn admits_tags(self, e: EntryView) -> bool {
        self.tags.len() == 0 || shares_tag(self.tags, e.tags)
    }

    /// An entry passes the text part if the text occurs in its title or in
    /// its content. The empty text occurs everywhere.
    pub open spec fn admits_text(self, e: EntryView) -> bool {
        is_substring(self.text, e.title) || is_substring(self.text, e.content)
    }

    /// Whether the entry passes the filter.
    pub open spec fn matches(self, e: EntryView) -> bool {
        self.admits_tags(e) && self.admits_text(e)
    }
}

/// Whether `e` passes `filter`; without a filter every entry passes.
pub open spec fn admits(filter: Option<FilterView>, e: EntryView) -> bool {
    match filter {
        None => true,
        Some(f) => f.matches(e),
    }
}

/// A filter over tags and free text. It never changes the entries it is
/// applied to.
#[derive(Debug, Clone, PartialEq, Eq)]
pub struct Filter {
    /// The selected tags; empty means that tags do not matter.
    pub tags: Vec<String>,
    /// Text that must occur in the title or in the content.
    pub text: String,
}

impl View for Filter {
    type V = FilterView;

    open spec fn view(&self) -> FilterView {
        FilterView { tags: self.tags.deep_view(), text: self.text@ }
    }
}

/// The view of an optional filter.
pub open spec fn filter_view(filter: Option<Filter>) -> Option<FilterView> {
    match filter {
        None => None,
        Some(f) => Some(f@),
    }
}

/// Whether `tag` is one of `tags`.
pub fn has_tag(tags: &Vec<String>, tag: &String) -> (r: bool)
    ensures
        r == tags.deep_view().contains(tag@),
{
    let mut j: usize = 0;
    while j < tags.len()
        invariant
            j <= tags.len(),
            forall|k: int| 0 <= k < j ==> tags.deep_view()[k] != tag@,
        decreases tags.len() - j,
    {
        if tags[j] == *tag {
            assert(tags.deep_view()[j as int] == tag@);
            return true;
        }
        j += 1;
    }
    false
}

impl Filter {
    pub fn new(tags: Vec<String>, text: String) -> (r: Self)
        ensures
            r@ == (FilterView { tags: tags.deep_view(), text: text@ }),
    {
        Filter { tags, text }
    }

    /// A copy of this filter.
    pub fn duplicate(&self) -> (r: Self)
        ensures
            r@ == self@,
    {
        Filter { tags: copy_strings(&self.tags), text: self.text.clone() }
    }

    fn entry_shares_tag(&self, entry: &Entry) -> (r: bool)
        ensures
            r == shares_tag(self@.tags, entry@.tags),
    {
        let mut i: usize = 0;
        while i < self.tags.len()
            invariant
                i <= self.tags.len(),
                forall|k: int, j: int|
                    0 <= k < i && 0 <= j < entry@.tags.len() ==> #[trigger] self@.tags[k]
                        != #[trigger] entry@.tags[j],
            decreases self.tags.len() - i,
        {
            if has_tag(&entry.tags, &self.tags[i]) {
                let ghost j = entry@.tags.index_of(self@.tags[i as int]);
                assert(self@.tags[i as int] == entry@.tags[j]);
                return true;
            }
            i += 1;
        }
        false
    }

    /// Decides whether `entry` passes this filter.
    pub fn matches(&self, entry: &Entry) -> (r: bool)
        ensures
            r == self@.matches(entry@),
    {
        if self.tags.len() > 0 && !self.entry_shares_tag(entry) {
            return false;
        }
        str_contains(entry.title.as_str(), self.text.as_str()) || str_contains(
            entry.content.as_str(),
            self.text.as_str(),
        )
    }
}

/// Decides whether `entry` passes `filter`; without a filter every entry
/// passes.
pub fn filter_admits(filter: &Option<Filter>, entry: &Entry) -> (r: bool)
    ensures
        r == admits(filter_view(*filter), entry@),
{
    match filter {
        None => true,
        Some(f) => f.matches(entry),
    }
}

/// A filter without text admits every entry with respect to text.
pub proof fn lemma_empty_text_admits(f: FilterView, e: EntryView)
    requires
        f.text.len() == 0,
    ensures
        f.admits_text(e),
{
    assert(e.title.subrange(0, 0) =~= f.text);
    assert(occurs_at(f.text, e.title, 0));
}

} // verus!
