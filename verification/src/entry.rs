//! Journal entries, their drafts, and the envelope in which entries travel
//! between stores.

use vstd::prelude::*;

verus! {

/// The schema version stamped on every transfer envelope.
pub const TRANSFER_DATA_VERSION: u16 = 100;

/// A point in time: whole seconds since the Unix epoch and the nanoseconds
/// within that second. Dates are ordered by seconds, then by nanoseconds.
#[derive(Debug, Clone, Copy, PartialEq, Eq, Structural)]
pub struct EntryDate {
    pub secs: i64,
    pub nanos: u32,
}

impl EntryDate {
    /// Whether `self` lies strictly before `other`.
    pub open spec fn before(self, other: EntryDate) -> bool {
        self.secs < other.secs || (self.secs == other.secs && self.nanos < other.nanos)
    }

    pub fn new(secs: i64, nanos: u32) -> (r: Self)
        ensures
            r == (EntryDate { secs, nanos }),
    {
        EntryDate { secs, nanos }
    }

    /// Decides whether `self` lies strictly before `other`.
    pub fn is_before(&self, other: &EntryDate) -> (r: bool)
        ensures
            r == self.before(*other),
    {
        self.secs < other.secs || (self.secs == other.secs && self.nanos < other.nanos)
    }
}

/// Copies a list of strings.
pub fn copy_strings(v: &Vec<String>) -> (r: Vec<String>)
    ensures
        r.deep_view() == v.deep_view(),
{
    let r = v.clone();
    assert(r.deep_view() =~= v.deep_view());
    r
}

/// What a draft holds: an entry that storage has not given an id yet.
pub struct DraftView {
    pub date: EntryDate,
    pub title: Seq<char>,
    pub content: Seq<char>,
    pub tags: Seq<Seq<char>>,
}

/// What an entry holds.
pub struct EntryView {
    pub id: u32,
    pub date: EntryDate,
    pub title: Seq<char>,
    pub content: Seq<char>,
    pub tags: Seq<Seq<char>>,
}

impl DraftView {
    /// The entry that this draft becomes under `id`.
    pub open spec fn with_id(self, id: u32) -> EntryView {
        EntryView { id, date: self.date, title: self.title, content: self.content, tags: self.tags }
    }

    /// This draft with its content replaced.
    pub open spec fn with_content(self, content: Seq<char>) -> DraftView {
        DraftView { content, ..self }
    }
}

impl EntryView {
    /// The entry without its id.
    pub open spec fn draft(self) -> DraftView {
        DraftView { date: self.date, title: self.title, content: self.content, tags: self.tags }
    }
}

/// A persisted journal record. Storage assigns the id when the entry is
/// created; every other field changes only by replacing the whole entry.
#[derive(Debug, Clone, PartialEq, Eq)]
pub struct Entry {
    pub id: u32,
    pub date: EntryDate,
    pub title: String,
    pub content: String,
    pub tags: Vec<String>,
}

impl View for Entry {
    type V = EntryView;

    open spec fn view(&self) -> EntryView {
        EntryView {
            id: self.id,
            date: self.date,
            title: self.title@,
            content: self.content@,
            tags: self.tags.deep_view(),
        }
    }
}

/// The views of a sequence of entries, in order.
pub open spec fn entry_views(s: Seq<Entry>) -> Seq<EntryView> {
    s.map_values(|e: Entry| e@)
}

impl Entry {
    pub fn new(id: u32, date: EntryDate, title: String, content: String, tags: Vec<String>) -> (r:
        Self)
        ensures
            r@ == (EntryView {
                id,
                date,
                title: title@,
                content: content@,
                tags: tags.deep_view(),
            }),
    {
        Self { id, date, title, content, tags }
    }

    /// The entry that `draft` becomes once storage has assigned `id`.
    pub fn from_draft(id: u32, draft: EntryDraft) -> (r: Self)
        ensures
            r@ == draft@.with_id(id),
    {
        Self {
            id,
            date: draft.date,
            title: draft.title,
            content: draft.content,
            tags: draft.tags,
        }
    }

    /// A copy of this entry.
    pub fn duplicate(&self) -> (r: Self)
        ensures
            r@ == self@,
    {
        Self {
            id: self.id,
            date: self.date,
            title: self.title.clone(),
            content: self.content.clone(),
            tags: copy_strings(&self.tags),
        }
    }

    /// A draft with the fields of this entry.
    pub fn to_draft(&self) -> (r: EntryDraft)
        ensures
            r@ == self@.draft(),
    {
        EntryDraft {
            date: self.date,
            title: self.title.clone(),
            content: self.content.clone(),
            tags: copy_strings(&self.tags),
        }
    }
}

/// An entry in the making: it has no id until storage accepts it.
#[derive(Debug, Clone, PartialEq, Eq)]
pub struct EntryDraft {
    pub date: EntryDate,
    pub title: String,
    pub content: String,
    pub tags: Vec<String>,
}

impl View for EntryDraft {
    type V = DraftView;

    open spec fn view(&self) -> DraftView {
        DraftView {
            date: self.date,
            title: self.title@,
            content: self.content@,
            tags: self.tags.deep_view(),
        }
    }
}

/// The views of a sequence of drafts, in order.
pub open spec fn draft_views(s: Seq<EntryDraft>) -> Seq<DraftView> {
    s.map_values(|d: EntryDraft| d@)
}

impl EntryDraft {
    /// A fresh draft with empty content.
    pub fn new(date: EntryDate, title: String, tags: Vec<String>) -> (r: Self)
        ensures
            r@ == (DraftView {
                date,
                title: title@,
                content: Seq::<char>::empty(),
                tags: tags.deep_view(),
            }),
    {
        let content = String::new();
        Self { date, title, content, tags }
    }

    /// The draft that edits `entry`: all of its fields but the id.
    pub fn from_entry(entry: Entry) -> (r: Self)
        ensures
            r@ == entry@.draft(),
    {
        Self { date: entry.date, title: entry.title, content: entry.content, tags: entry.tags }
    }

    /// A copy of this draft.
    pub fn duplicate(&self) -> (r: Self)
        ensures
            r@ == self@,
    {
        Self {
            date: self.date,
            title: self.title.clone(),
            content: self.content.clone(),
            tags: copy_strings(&self.tags),
        }
    }
}

/// What a transfer envelope holds.
pub struct DtoView {
    pub version: u16,
    pub entries: Seq<DraftView>,
}

/// The envelope in which entries are exported and imported: the schema
/// version and the drafts, in order.
#[derive(Debug, Clone, PartialEq, Eq)]
pub struct EntriesDTO {
    pub version: u16,
    pub entries: Vec<EntryDraft>,
}

impl View for EntriesDTO {
    type V = DtoView;

    open spec fn view(&self) -> DtoView {
        DtoView { version: self.version, entries: draft_views(self.entries@) }
    }
}

impl EntriesDTO {
    /// An envelope of the current schema version around `entries`.
    pub fn new(entries: Vec<EntryDraft>) -> (r: Self)
        ensures
            r@ == (DtoView { version: TRANSFER_DATA_VERSION, entries: draft_views(entries@) }),
    {
        Self { version: TRANSFER_DATA_VERSION, entries }
    }
}

/// What a failed change of an entry reports.
pub enum ErrorView {
    ValidationError(Seq<char>),
    DataError(Seq<char>),
}

impl ErrorView {
    /// The text shown to the user.
    pub open spec fn message(self) -> Seq<char> {
        match self {
            ErrorView::ValidationError(m) => m,
            ErrorView::DataError(m) => m,
        }
    }
}

/// Why storage refused to add or update an entry.
#[derive(Debug, Clone, PartialEq, Eq)]
pub enum ModifyEntryError {
    /// The user's input was rejected and can be corrected, as an empty title.
    ValidationError(String),
    /// The storage layer failed; the text describes the cause.
    DataError(String),
}

impl View for ModifyEntryError {
    type V = ErrorView;

    open spec fn view(&self) -> ErrorView {
        match self {
            ModifyEntryError::ValidationError(m) => ErrorView::ValidationError(m@),
            ModifyEntryError::DataError(m) => ErrorView::DataError(m@),
        }
    }
}

impl ModifyEntryError {
    /// The text shown to the user.
    pub fn message(&self) -> (r: String)
        ensures
            r@ == self@.message(),
    {
        match self {
            ModifyEntryError::ValidationError(m) => m.clone(),
            ModifyEntryError::DataError(m) => m.clone(),
        }
    }
}

} // verus!
