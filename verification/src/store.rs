//! A storage provider in memory. It assigns the ids in rising order and
//! asks for a title of every entry.

use crate::active::ids_of;
use crate::app::{index_of_id, lemma_index_of_id_found, stored_position_of};
use crate::entry::{
    draft_views, entry_views, DraftView, DtoView, EntriesDTO, Entry, EntryDraft, EntryView,
    ErrorView, ModifyEntryError, TRANSFER_DATA_VERSION,
};
use crate::provider::{
    exported, import_outcome, lemma_select_all, next_import_action, selected_for, DataProvider,
    ImportAction, ImportError, ImportErrorView,
};
use vstd::prelude::*;
use vstd::string::StringExecFns;

verus! {

/// The message for a draft or an entry without a title.
pub const EMPTY_TITLE: &'static str = "Entry title can't be empty";

/// The message when every id is taken.
pub const NO_ID_LEFT: &'static str = "No free entry id is left";

/// The message when no entry has the given id.
pub const NOT_FOUND: &'static str = "No entry has the given id";

/// The scheme in front of the path of a database file.
pub const DATABASE_SCHEME: &'static str = "sqlite://";

/// Builds the address of the database in the file at `path`.
pub fn database_url(path: &str) -> (r: String)
    ensures
        r@ == DATABASE_SCHEME@ + path@,
{
    let mut url = String::from_str(DATABASE_SCHEME);
    url.append(path);
    url
}

/// The greatest id among `entries`; -1 where there is none.
pub open spec fn max_id(entries: Seq<EntryView>) -> int
    decreases entries.len(),
{
    if entries.len() == 0 {
        -1
    } else if entries.last().id > max_id(entries.drop_last()) {
        entries.last().id as int
    } else {
        max_id(entries.drop_last())
    }
}

/// What adding the draft `d` to `entries` answers: the new entry under the
/// id after the greatest one, or why the draft is refused.
pub open spec fn add_result(entries: Seq<EntryView>, d: DraftView) -> Result<EntryView, ErrorView> {
    if d.title.len() == 0 {
        Err(ErrorView::ValidationError(EMPTY_TITLE@))
    } else if max_id(entries) >= u32::MAX {
        Err(ErrorView::DataError(NO_ID_LEFT@))
    } else {
        Ok(d.with_id((max_id(entries) + 1) as u32))
    }
}

/// What replacing the stored entry of the id of `e` by `e` answers.
pub open spec fn update_result(entries: Seq<EntryView>, e: EntryView) -> Result<
    EntryView,
    ErrorView,
> {
    if e.title.len() == 0 {
        Err(ErrorView::ValidationError(EMPTY_TITLE@))
    } else if index_of_id(entries, e.id) is None {
        Err(ErrorView::DataError(NOT_FOUND@))
    } else {
        Ok(e)
    }
}

/// The first refusal met when `drafts` are added to `entries` one after
/// the other.
pub open spec fn first_refusal(entries: Seq<EntryView>, drafts: Seq<DraftView>) -> Option<ErrorView>
    decreases drafts.len(),
{
    if drafts.len() == 0 {
        None
    } else {
        match add_result(entries, drafts[0]) {
            Ok(e) => first_refusal(entries.push(e), drafts.drop_first()),
            Err(err) => Some(err),
        }
    }
}

/// The entries after `drafts` have been added one after the other, up to
/// the first refusal.
pub open spec fn with_drafts(entries: Seq<EntryView>, drafts: Seq<DraftView>) -> Seq<EntryView>
    decreases drafts.len(),
{
    if drafts.len() == 0 {
        entries
    } else {
        match add_result(entries, drafts[0]) {
            Ok(e) => with_drafts(entries.push(e), drafts.drop_first()),
            Err(_) => entries,
        }
    }
}

/// What an import of `dto` into `entries` answers. An envelope of another
/// version is flagged before anything else is looked at.
pub open spec fn import_result(entries: Seq<EntryView>, dto: DtoView) -> Result<(), ImportErrorView> {
    if dto.version != TRANSFER_DATA_VERSION {
        Err(ImportErrorView::VersionMismatch { found: dto.version, expected: TRANSFER_DATA_VERSION })
    } else {
        match first_refusal(entries, dto.entries) {
            Some(err) => Err(ImportErrorView::Rejected(err)),
            None => Ok(()),
        }
    }
}

/// The entries after an import of `dto`: unchanged for an envelope of
/// another version.
pub open spec fn imported(entries: Seq<EntryView>, dto: DtoView) -> Seq<EntryView> {
    if dto.version != TRANSFER_DATA_VERSION {
        entries
    } else {
        with_drafts(entries, dto.entries)
    }
}

/// An entry store in memory.
#[derive(Debug, Clone, PartialEq, Eq)]
pub struct EntryStore {
    pub entries: Vec<Entry>,
}

impl View for EntryStore {
    type V = Seq<EntryView>;

    open spec fn view(&self) -> Seq<EntryView> {
        entry_views(self.entries@)
    }
}

/// A store is well formed if no two of its entries share an id and every
/// entry has a title.
pub open spec fn store_well_formed(entries: Seq<EntryView>) -> bool {
    &&& ids_of(entries).no_duplicates()
    &&& forall|i: int| 0 <= i < entries.len() ==> (#[trigger] entries[i]).title.len() > 0
}

/// No entry has an id above the greatest id.
pub proof fn lemma_max_id(entries: Seq<EntryView>)
    ensures
        max_id(entries) >= -1,
        forall|i: int| 0 <= i < entries.len() ==> (#[trigger] entries[i]).id <= max_id(entries),
    decreases entries.len(),
{
    if entries.len() > 0 {
        lemma_max_id(entries.drop_last());
        assert forall|i: int| 0 <= i < entries.len() implies (#[trigger] entries[i]).id <= max_id(
            entries,
        ) by {
            if i < entries.len() - 1 {
                assert(entries.drop_last()[i].id <= max_id(entries.drop_last()));
            }
        }
    }
}

/// A sequence of distinct numbers below `bound` has at most `bound`
/// members.
pub proof fn lemma_distinct_below(s: Seq<u32>, bound: int)
    requires
        s.no_duplicates(),
        forall|i: int| 0 <= i < s.len() ==> #[trigger] s[i] < bound,
    ensures
        s.len() <= bound || s.len() == 0,
    decreases bound,
{
    if s.len() > 0 {
        assert(s[0] < bound);
        if exists|k: int| 0 <= k < s.len() && #[trigger] s[k] == bound - 1 {
            let k = choose|k: int| 0 <= k < s.len() && #[trigger] s[k] == bound - 1;
            let rest = s.remove(k);
            assert forall|i: int| 0 <= i < rest.len() implies #[trigger] rest[i] < bound - 1 by {
                let ri = if i < k { i } else { i + 1 };
                assert(s[ri] != s[k]);
                assert(s[ri] < bound);
            }
            assert forall|i: int, j: int|
                0 <= i < rest.len() && 0 <= j < rest.len() && i != j implies rest[i] != rest[j] by {
                let ri = if i < k { i } else { i + 1 };
                let rj = if j < k { j } else { j + 1 };
                assert(s[ri] != s[rj]);
            }
            lemma_distinct_below(rest, bound - 1);
        } else {
            assert forall|i: int| 0 <= i < s.len() implies #[trigger] s[i] < bound - 1 by {
                assert(s[i] < bound);
            }
            lemma_distinct_below(s, bound - 1);
        }
    }
}

/// Adding a draft keeps a store well formed.
pub proof fn lemma_add_keeps_well_formed(entries: Seq<EntryView>, d: DraftView)
    requires
        store_well_formed(entries),
        add_result(entries, d) is Ok,
    ensures
        store_well_formed(entries.push(add_result(entries, d)->Ok_0)),
{
    lemma_max_id(entries);
    let w = entries.push(add_result(entries, d)->Ok_0);
    assert forall|a: int, b: int| 0 <= a < w.len() && 0 <= b < w.len() && a != b implies ids_of(w)[a]
        != ids_of(w)[b] by {
        if a < entries.len() && b < entries.len() {
            assert(ids_of(entries)[a] != ids_of(entries)[b]);
        } else if a < entries.len() {
            assert(entries[a].id <= max_id(entries));
        } else {
            assert(entries[b].id <= max_id(entries));
        }
    }
    assert forall|i: int| 0 <= i < w.len() implies (#[trigger] w[i]).title.len() > 0 by {
        if i < entries.len() {
            assert(entries[i].title.len() > 0);
        }
    }
}

/// Replacing an entry keeps a store well formed.
pub proof fn lemma_update_keeps_well_formed(entries: Seq<EntryView>, e: EntryView)
    requires
        store_well_formed(entries),
        update_result(entries, e) is Ok,
    ensures
        store_well_formed(entries.update(index_of_id(entries, e.id)->Some_0, e)),
{
    lemma_index_of_id_found(entries, e.id);
    let at = index_of_id(entries, e.id)->Some_0;
    let w = entries.update(at, e);
    assert forall|a: int, b: int| 0 <= a < w.len() && 0 <= b < w.len() && a != b implies ids_of(w)[a]
        != ids_of(w)[b] by {
        assert(ids_of(entries)[a] != ids_of(entries)[b]);
    }
    assert forall|i: int| 0 <= i < w.len() implies (#[trigger] w[i]).title.len() > 0 by {
        if i != at {
            assert(entries[i].title.len() > 0);
        }
    }
}

/// Removing an entry keeps a store well formed.
pub proof fn lemma_remove_keeps_well_formed(entries: Seq<EntryView>, id: u32)
    requires
        store_well_formed(entries),
        index_of_id(entries, id) is Some,
    ensures
        store_well_formed(entries.remove(index_of_id(entries, id)->Some_0)),
{
    lemma_index_of_id_found(entries, id);
    let at = index_of_id(entries, id)->Some_0;
    let w = entries.remove(at);
    assert forall|a: int, b: int| 0 <= a < w.len() && 0 <= b < w.len() && a != b implies ids_of(w)[a]
        != ids_of(w)[b] by {
        let ra = if a < at { a } else { a + 1 };
        let rb = if b < at { b } else { b + 1 };
        assert(ids_of(entries)[ra] != ids_of(entries)[rb]);
    }
    assert forall|i: int| 0 <= i < w.len() implies (#[trigger] w[i]).title.len() > 0 by {
        let ri = if i < at { i } else { i + 1 };
        assert(entries[ri].title.len() > 0);
    }
}

/// An import keeps a store well formed, whether it ends well or not, and
/// it only ever adds: what the store held stays at the front.
pub proof fn lemma_import_keeps_well_formed(entries: Seq<EntryView>, dto: DtoView)
    requires
        store_well_formed(entries),
    ensures
        store_well_formed(imported(entries, dto)),
        entries.is_prefix_of(imported(entries, dto)),
        dto.version != TRANSFER_DATA_VERSION ==> imported(entries, dto) == entries && import_result(
            entries,
            dto,
        ) is Err,
{
    lemma_with_drafts_keeps_well_formed(entries, dto.entries);
}

/// Adding drafts one after the other keeps a store well formed and keeps
/// what the store held at the front.
pub proof fn lemma_with_drafts_keeps_well_formed(entries: Seq<EntryView>, drafts: Seq<DraftView>)
    requires
        store_well_formed(entries),
    ensures
        store_well_formed(with_drafts(entries, drafts)),
        entries.is_prefix_of(with_drafts(entries, drafts)),
    decreases drafts.len(),
{
    if drafts.len() > 0 {
        if let Ok(e) = add_result(entries, drafts[0]) {
            lemma_add_keeps_well_formed(entries, drafts[0]);
            lemma_with_drafts_keeps_well_formed(entries.push(e), drafts.drop_first());
            let w = with_drafts(entries.push(e), drafts.drop_first());
            assert forall|i: int| 0 <= i < entries.len() implies entries[i] == w[i] by {
                assert(entries.push(e)[i] == w[i]);
            }
        }
    }
}

/// Adding drafts one after the other puts them behind the held entries, in
/// order and with their fields, and all of them unless one is refused.
pub proof fn lemma_with_drafts_appends(entries: Seq<EntryView>, drafts: Seq<DraftView>)
    ensures
        entries.is_prefix_of(with_drafts(entries, drafts)),
        with_drafts(entries, drafts).len() - entries.len() <= drafts.len(),
        forall|j: int|
            0 <= j < with_drafts(entries, drafts).len() - entries.len() ==> (#[trigger] with_drafts(
                entries,
                drafts,
            )[entries.len() + j]).draft() == drafts[j],
        first_refusal(entries, drafts) is None <==> with_drafts(entries, drafts).len()
            - entries.len() == drafts.len(),
    decreases drafts.len(),
{
    if drafts.len() > 0 {
        if let Ok(e) = add_result(entries, drafts[0]) {
            let grown = entries.push(e);
            let rest = drafts.drop_first();
            lemma_with_drafts_appends(grown, rest);
            let w = with_drafts(entries, drafts);
            assert forall|i: int| 0 <= i < entries.len() implies entries[i] == w[i] by {
                assert(grown[i] == w[i]);
            }
            assert forall|j: int| 0 <= j < w.len() - entries.len() implies (#[trigger] w[entries.len()
                + j]).draft() == drafts[j] by {
                if j == 0 {
                    assert(w[entries.len() as int] == grown[entries.len() as int]);
                } else {
                    assert(w[grown.len() + (j - 1)].draft() == rest[j - 1]);
                }
            }
        }
    }
}

/// The ids of `entries` are 0, 1, 2 and so on, in stored order.
pub open spec fn numbered(entries: Seq<EntryView>) -> bool {
    forall|i: int| 0 <= i < entries.len() ==> (#[trigger] entries[i]).id == i
}

/// In a store whose ids count up from 0 the greatest id is the last one.
proof fn lemma_max_id_numbered(entries: Seq<EntryView>)
    requires
        numbered(entries),
    ensures
        max_id(entries) == entries.len() - 1,
    decreases entries.len(),
{
    if entries.len() > 0 {
        assert forall|i: int| 0 <= i < entries.len() - 1 implies (
        #[trigger] entries.drop_last()[i]).id == i by {
            assert(entries[i].id == i);
        }
        lemma_max_id_numbered(entries.drop_last());
        assert(entries.last() == entries[entries.len() - 1]);
    }
}

/// Drafts with titles that are added to a store whose ids count up from 0
/// are all accepted, as long as the ids last: each becomes an entry with
/// the same fields, behind those that were there, in the order given.
proof fn lemma_import_numbered(entries: Seq<EntryView>, drafts: Seq<DraftView>)
    requires
        numbered(entries),
        entries.len() + drafts.len() <= u32::MAX + 1,
        forall|j: int| 0 <= j < drafts.len() ==> (#[trigger] drafts[j]).title.len() > 0,
    ensures
        first_refusal(entries, drafts) is None,
        with_drafts(entries, drafts).len() == entries.len() + drafts.len(),
        numbered(with_drafts(entries, drafts)),
        forall|i: int| 0 <= i < entries.len() ==> with_drafts(entries, drafts)[i] == entries[i],
        forall|j: int|
            0 <= j < drafts.len() ==> (#[trigger] with_drafts(entries, drafts)[
                entries.len() + j
            ]).draft() == drafts[j],
    decreases drafts.len(),
{
    if drafts.len() > 0 {
        lemma_max_id_numbered(entries);
        assert(drafts[0].title.len() > 0);
        let e = add_result(entries, drafts[0])->Ok_0;
        let grown = entries.push(e);
        let rest = drafts.drop_first();
        assert forall|j: int| 0 <= j < rest.len() implies (#[trigger] rest[j]).title.len() > 0 by {
            assert(drafts[j + 1].title.len() > 0);
        }
        lemma_import_numbered(grown, rest);
        let w = with_drafts(entries, drafts);
        assert forall|i: int| 0 <= i < entries.len() implies w[i] == entries[i] by {
            assert(grown[i] == entries[i]);
        }
        assert forall|j: int| 0 <= j < drafts.len() implies (#[trigger] w[entries.len() + j]).draft()
            == drafts[j] by {
            if j == 0 {
                assert(w[entries.len() as int] == grown[entries.len() as int]);
            } else {
                assert(w[grown.len() + (j - 1)].draft() == rest[j - 1]);
            }
        }
    }
}

/// The round trip of an export. What a well-formed store exports, for any
/// choice of ids, an empty store imports without a refusal. The store then
/// holds one entry for each exported draft, in the same order and with the
/// same date, title, content and tags, under ids of its own; and exporting
/// all of it answers the very envelope that was imported.
pub proof fn lemma_export_import_round_trip(entries: Seq<EntryView>, ids: Seq<u32>)
    requires
        store_well_formed(entries),
    ensures
        ({
            let dto = exported(entries, ids);
            let back = imported(Seq::empty(), dto);
            &&& import_result(Seq::empty(), dto) == Ok::<(), ImportErrorView>(())
            &&& store_well_formed(back)
            &&& back.len() == dto.entries.len()
            &&& forall|i: int| 0 <= i < back.len() ==> (#[trigger] back[i]).draft() == dto.entries[i]
            &&& exported(back, Seq::empty()) == dto
        }),
{
    let dto = exported(entries, ids);
    let chosen = selected_for(entries, ids);
    let pred = |e: EntryView| ids.len() == 0 || ids.contains(e.id);
    let empty = Seq::<EntryView>::empty();
    let back = imported(empty, dto);
    // the store holds no more entries than there are ids
    lemma_distinct_below(ids_of(entries), u32::MAX + 1);
    entries.lemma_filter_len(pred);
    // every exported draft has a title
    assert forall|j: int| 0 <= j < dto.entries.len() implies (#[trigger] dto.entries[j]).title.len()
        > 0 by {
        assert(chosen.contains(chosen[j]));
        entries.lemma_filter_contains_rev(pred, chosen[j]);
        let k = choose|k: int| 0 <= k < entries.len() && entries[k] == chosen[j];
        assert(entries[k].title.len() > 0);
    }
    lemma_import_numbered(empty, dto.entries);
    lemma_with_drafts_keeps_well_formed(empty, dto.entries);
    lemma_select_all(back);
    assert forall|i: int| 0 <= i < back.len() implies (#[trigger] back[i]).draft() == dto.entries[i] by {
        assert(back[0 + i].draft() == dto.entries[i]);
    }
    assert(exported(back, Seq::empty()).entries =~= dto.entries);
}

/// Computes the greatest id among `entries`, if there is an entry.
fn greatest_id(entries: &Vec<Entry>) -> (r: Option<u32>)
    ensures
        match r {
            Some(id) => max_id(entry_views(entries@)) == id,
            None => max_id(entry_views(entries@)) == -1,
        },
{
    let ghost all = entry_views(entries@);
    let mut best: Option<u32> = None;
    let mut i: usize = 0;
    assert(all.take(0) =~= Seq::<EntryView>::empty());
    while i < entries.len()
        invariant
            i <= entries.len(),
            all == entry_views(entries@),
            match best {
                Some(id) => max_id(all.take(i as int)) == id,
                None => max_id(all.take(i as int)) == -1,
            },
        decreases entries.len() - i,
    {
        proof {
            assert(all.take(i + 1).drop_last() =~= all.take(i as int));
            assert(all.take(i + 1).last() == entries[i as int]@);
        }
        let id = entries[i].id;
        best = match best {
            Some(b) => if id > b {
                Some(id)
            } else {
                Some(b)
            },
            None => Some(id),
        };
        i += 1;
    }
    assert(all.take(i as int) =~= all);
    best
}

impl EntryStore {
    /// A store without entries.
    pub fn new() -> (r: Self)
        ensures
            r@ == Seq::<EntryView>::empty(),
            store_well_formed(r@),
    {
        let r = EntryStore { entries: Vec::new() };
        assert(r@ =~= Seq::<EntryView>::empty());
        r
    }

}

impl DataProvider for EntryStore {
    open spec fn held(&self) -> Seq<EntryView> {
        self@
    }

    /// Copies of all entries, in stored order. It never fails.
    fn load_all_entries(&self) -> (r: Result<Vec<Entry>, String>)
        ensures
            r is Ok,
            entry_views(r->Ok_0@) == self@,
    {
        let mut out: Vec<Entry> = Vec::new();
        let mut i: usize = 0;
        while i < self.entries.len()
            invariant
                i <= self.entries.len(),
                out.len() == i,
                forall|k: int| 0 <= k < i ==> (#[trigger] out@[k])@ == self.entries@[k]@,
            decreases self.entries.len() - i,
        {
            out.push(self.entries[i].duplicate());
            i += 1;
        }
        assert(entry_views(out@) =~= self@);
        Ok(out)
    }

    /// Adds a draft under a new id, the one after the greatest id in the
    /// store, and answers the new entry. A draft without a title is
    /// refused as invalid, and a store that has used the last id refuses
    /// every draft; a refusal leaves the store as it is.
    fn add_entry(&mut self, entry: EntryDraft) -> (r: Result<Entry, ModifyEntryError>)
        ensures
            match r {
                Ok(e) => add_result(old(self)@, entry@) == Ok::<EntryView, ErrorView>(e@)
                    && final(self)@ == old(self)@.push(e@),
                Err(err) => add_result(old(self)@, entry@) == Err::<EntryView, ErrorView>(err@)
                    && final(self)@ == old(self)@,
            },
            store_well_formed(old(self)@) ==> store_well_formed(final(self)@),
    {
        proof {
            if store_well_formed(self@) && add_result(self@, entry@) is Ok {
                lemma_add_keeps_well_formed(self@, entry@);
            }
        }
        if entry.title.as_str().is_empty() {
            return Err(ModifyEntryError::ValidationError(String::from_str(EMPTY_TITLE)));
        }
        let id = match greatest_id(&self.entries) {
            Some(greatest) => {
                if greatest == u32::MAX {
                    return Err(ModifyEntryError::DataError(String::from_str(NO_ID_LEFT)));
                }
                greatest + 1
            },
            None => 0,
        };
        let added = Entry::from_draft(id, entry);
        let copy = added.duplicate();
        let ghost before = self@;
        proof {
            lemma_max_id(before);
            lemma_index_of_id_found(before, id);
        }
        self.entries.push(added);
        assert(self@ =~= before.push(added@));
        Ok(copy)
    }

    /// Replaces the stored entry that has the id of `entry`, and answers
    /// the entry as stored. An entry without a title is refused as
    /// invalid, and one whose id the store does not hold as a storage
    /// failure; a refusal leaves the store as it is.
    fn update_entry(&mut self, entry: Entry) -> (r: Result<Entry, ModifyEntryError>)
        ensures
            match r {
                Ok(e) => update_result(old(self)@, entry@) == Ok::<EntryView, ErrorView>(e@)
                    && final(self)@ == old(self)@.update(
                    index_of_id(old(self)@, entry.id)->Some_0,
                    e@,
                ),
                Err(err) => update_result(old(self)@, entry@) == Err::<EntryView, ErrorView>(err@)
                    && final(self)@ == old(self)@,
            },
            store_well_formed(old(self)@) ==> store_well_formed(final(self)@),
    {
        proof {
            if store_well_formed(self@) && update_result(self@, entry@) is Ok {
                lemma_update_keeps_well_formed(self@, entry@);
            }
        }
        if entry.title.as_str().is_empty() {
            return Err(ModifyEntryError::ValidationError(String::from_str(EMPTY_TITLE)));
        }
        match stored_position_of(&self.entries, entry.id) {
            Some(i) => {
                let copy = entry.duplicate();
                let ghost before = self@;
                self.entries.remove(i);
                self.entries.insert(i, entry);
                assert(self@ =~= before.update(i as int, entry@));
                Ok(copy)
            },
            None => Err(ModifyEntryError::DataError(String::from_str(NOT_FOUND))),
        }
    }

    /// Removes the entry with the id `entry_id`. It is a failure if the
    /// store holds no such entry.
    fn remove_entry(&mut self, entry_id: u32) -> (r: Result<(), String>)
        ensures
            match index_of_id(old(self)@, entry_id) {
                Some(i) => r is Ok && final(self)@ == old(self)@.remove(i),
                None => r is Err && r->Err_0@ == NOT_FOUND@ && final(self)@ == old(self)@,
            },
            store_well_formed(old(self)@) ==> store_well_formed(final(self)@),
    {
        proof {
            if store_well_formed(self@) && index_of_id(self@, entry_id) is Some {
                lemma_remove_keeps_well_formed(self@, entry_id);
            }
        }
        match stored_position_of(&self.entries, entry_id) {
            Some(i) => {
                let ghost before = self@;
                self.entries.remove(i);
                assert(self@ =~= before.remove(i as int));
                Ok(())
            },
            None => Err(String::from_str(NOT_FOUND)),
        }
    }

    /// Exports the entries with the given ids, or all entries where no id
    /// is given, as drafts in an envelope of the current schema version.
    /// It never fails.
    fn get_export_object(&self, entries_ids: &[u32]) -> (r: Result<EntriesDTO, String>)
        ensures
            r is Ok,
    {
        let ghost all = self@;
        let ghost pred = |e: EntryView| entries_ids@.len() == 0 || entries_ids@.contains(e.id);
        let ghost to_draft = |e: EntryView| e.draft();
        let mut drafts: Vec<EntryDraft> = Vec::new();
        let mut i: usize = 0;
        proof {
            assert(all.take(0) =~= Seq::<EntryView>::empty());
            reveal(Seq::filter);
            assert(draft_views(drafts@) =~= all.take(0).filter(pred).map_values(to_draft));
        }
        while i < self.entries.len()
            invariant
                i <= self.entries.len(),
                all == self@,
                pred == (|e: EntryView| entries_ids@.len() == 0 || entries_ids@.contains(e.id)),
                to_draft == (|e: EntryView| e.draft()),
                draft_views(drafts@) == all.take(i as int).filter(pred).map_values(to_draft),
            decreases self.entries.len() - i,
        {
            let e = &self.entries[i];
            proof {
                assert(all.take(i + 1) =~= all.take(i as int).push(e@));
                Seq::lemma_filter_push(all.take(i as int), e@, pred);
            }
            if entries_ids.len() == 0 || has_id(entries_ids, e.id) {
                let ghost before = draft_views(drafts@);
                drafts.push(e.to_draft());
                assert(draft_views(drafts@) =~= before.push(e@.draft()));
                assert(all.take(i as int).filter(pred).push(e@).map_values(to_draft)
                    =~= all.take(i as int).filter(pred).map_values(to_draft).push(e@.draft()));
            }
            i += 1;
        }
        assert(all.take(i as int) =~= all);
        Ok(EntriesDTO::new(drafts))
    }

    /// Imports the drafts of an envelope: each is added as a new entry, in
    /// order. An envelope of another schema version is flagged and nothing
    /// is added. The first draft that is refused ends the import; the
    /// drafts before it stay added.
    fn import_entries(&mut self, entries_dto: EntriesDTO) -> (r: Result<(), ImportError>)
        ensures
            import_outcome(r) == import_result(old(self)@, entries_dto@),
            final(self)@ == imported(old(self)@, entries_dto@),
            entries_dto.version != TRANSFER_DATA_VERSION ==> r is Err && final(self)@ == old(self)@,
            store_well_formed(old(self)@) ==> store_well_formed(final(self)@),
    {
        let ghost start = self@;
        let ghost drafts = entries_dto@.entries;
        let mut added: usize = 0;
        let mut failure: Option<ModifyEntryError> = None;
        proof {
            assert(drafts.skip(0) =~= drafts);
        }
        loop
            invariant
                start == old(self)@,
                drafts == entries_dto@.entries,
                drafts.len() == entries_dto.entries.len(),
                0 <= added <= drafts.len(),
                failure is None ==> first_refusal(start, drafts) == first_refusal(
                    self@,
                    drafts.skip(added as int),
                ),
                failure is None ==> with_drafts(start, drafts) == with_drafts(
                    self@,
                    drafts.skip(added as int),
                ),
                failure is Some ==> first_refusal(start, drafts) == Some(failure->Some_0@),
                failure is Some ==> with_drafts(start, drafts) == self@,
                entries_dto.version != TRANSFER_DATA_VERSION ==> self@ == start,
                store_well_formed(start) ==> store_well_formed(self@),
            decreases drafts.len() - added, if failure is None { 1int } else { 0int },
        {
            proof {
                lemma_with_drafts_appends(start, drafts);
            }
            match next_import_action(&entries_dto, added, failure.is_some()) {
                ImportAction::FlagVersion => {
                    return Err(
                        ImportError::VersionMismatch {
                            found: entries_dto.version,
                            expected: TRANSFER_DATA_VERSION,
                        },
                    );
                },
                ImportAction::Abort => {
                    match failure {
                        Some(err) => {
                            return Err(ImportError::Rejected(err));
                        },
                        None => {
                            return Ok(());
                        },
                    }
                },
                ImportAction::Finish => {
                    return Ok(());
                },
                ImportAction::Add(i) => {
                    let draft = entries_dto.entries[i].duplicate();
                    proof {
                        let rest = drafts.skip(added as int);
                        assert(rest[0] == draft@);
                        assert(rest.drop_first() =~= drafts.skip(added + 1));
                    }
                    match self.add_entry(draft) {
                        Ok(_) => {
                            added += 1;
                        },
                        Err(err) => {
                            failure = Some(err);
                        },
                    }
                },
            }
        }
    }
}

/// Whether `id` is one of `ids`.
fn has_id(ids: &[u32], id: u32) -> (r: bool)
    ensures
        r == ids@.contains(id),
{
    let mut i: usize = 0;
    while i < ids.len()
        invariant
            i <= ids.len(),
            forall|k: int| 0 <= k < i ==> ids@[k] != id,
        decreases ids.len() - i,
    {
        if ids[i] == id {
            return true;
        }
        i += 1;
    }
    false
}

} // verus!
