//! The contract of storage. A provider holds the entries of the journal; it
//! assigns the ids, replaces and removes entries by id, and exports and
//! imports entries through the transfer envelope.

use crate::app::index_of_id;
use crate::entry::{
    entry_views, DtoView, EntriesDTO, Entry, EntryDraft, EntryView, ErrorView, ModifyEntryError,
    TRANSFER_DATA_VERSION,
};
use vstd::prelude::*;

verus! {

/// The entries that an export of `ids` selects: those with one of the ids,
/// or all where no id is given, in stored order.
pub open spec fn selected_for(entries: Seq<EntryView>, ids: Seq<u32>) -> Seq<EntryView> {
    entries.filter(|e: EntryView| ids.len() == 0 || ids.contains(e.id))
}

/// The envelope that an export of `ids` answers: the selected entries
/// without their ids, stamped with the current schema version.
pub open spec fn exported(entries: Seq<EntryView>, ids: Seq<u32>) -> DtoView {
    DtoView {
        version: TRANSFER_DATA_VERSION,
        entries: selected_for(entries, ids).map_values(|e: EntryView| e.draft()),
    }
}

/// What the reason of a stopped import holds.
pub enum ImportErrorView {
    VersionMismatch { found: u16, expected: u16 },
    Rejected(ErrorView),
}

/// Why an import stopped.
#[derive(Debug, Clone, PartialEq, Eq)]
pub enum ImportError {
    /// The envelope is of another schema version and may need converting.
    /// Nothing was added.
    VersionMismatch { found: u16, expected: u16 },
    /// Storage refused a draft. The drafts before it stay added.
    Rejected(ModifyEntryError),
}

impl View for ImportError {
    type V = ImportErrorView;

    open spec fn view(&self) -> ImportErrorView {
        match self {
            ImportError::VersionMismatch { found, expected } => ImportErrorView::VersionMismatch {
                found: *found,
                expected: *expected,
            },
            ImportError::Rejected(err) => ImportErrorView::Rejected(err@),
        }
    }
}

/// The view of the outcome of an import.
pub open spec fn import_outcome(r: Result<(), ImportError>) -> Result<(), ImportErrorView> {
    match r {
        Ok(_) => Ok(()),
        Err(err) => Err(err@),
    }
}

/// What every import keeps to. An envelope of another schema version is
/// flagged and nothing is added. Otherwise each draft is added as a new
/// entry behind the held ones, in the order of the envelope, up to the first
/// draft that is refused: a good end means that every draft was added, and
/// a refusal that the drafts before the refused one stay added.
pub open spec fn import_meets(
    before: Seq<EntryView>,
    after: Seq<EntryView>,
    dto: DtoView,
    r: Result<(), ImportErrorView>,
) -> bool {
    if dto.version != TRANSFER_DATA_VERSION {
        &&& after == before
        &&& r == Err::<(), ImportErrorView>(
            ImportErrorView::VersionMismatch { found: dto.version, expected: TRANSFER_DATA_VERSION },
        )
    } else {
        &&& before.is_prefix_of(after)
        &&& after.len() - before.len() <= dto.entries.len()
        &&& forall|j: int|
            0 <= j < after.len() - before.len() ==> (#[trigger] after[before.len() + j]).draft()
                == dto.entries[j]
        &&& match r {
            Ok(_) => after.len() - before.len() == dto.entries.len(),
            Err(err) => err is Rejected && after.len() - before.len() < dto.entries.len(),
        }
    }
}

/// An export without ids selects every entry.
pub proof fn lemma_select_all(entries: Seq<EntryView>)
    ensures
        selected_for(entries, Seq::empty()) == entries,
    decreases entries.len(),
{
    let pred = |e: EntryView| Seq::<u32>::empty().len() == 0 || Seq::<u32>::empty().contains(e.id);
    reveal(Seq::filter);
    if entries.len() > 0 {
        lemma_select_all(entries.drop_last());
        assert(entries.drop_last().filter(pred).push(entries.last()) =~= entries);
    } else {
        assert(entries.filter(pred) =~= entries);
    }
}

/// The round trip of an export through any two providers. Where a provider
/// that held nothing has imported, without a refusal, what another one
/// exported, it holds one entry for each exported draft, in the same order
/// and with the same date, title, content and tags, under ids of its own;
/// and exporting all of it answers the very envelope that was imported.
pub proof fn lemma_round_trip(entries: Seq<EntryView>, ids: Seq<u32>, after: Seq<EntryView>)
    requires
        import_meets(Seq::empty(), after, exported(entries, ids), Ok(())),
    ensures
        after.len() == exported(entries, ids).entries.len(),
        forall|i: int|
            0 <= i < after.len() ==> (#[trigger] after[i]).draft() == exported(entries, ids).entries[i],
        exported(after, Seq::empty()) == exported(entries, ids),
{
    let dto = exported(entries, ids);
    lemma_select_all(after);
    assert forall|i: int| 0 <= i < after.len() implies (#[trigger] after[i]).draft()
        == dto.entries[i] by {
        assert(after[0 + i].draft() == dto.entries[i]);
    }
    assert(exported(after, Seq::empty()).entries =~= dto.entries);
}

/// What to do next in an import that adds the drafts one by one.
#[derive(Debug, Clone, Copy, PartialEq, Eq, Structural)]
pub enum ImportAction {
    /// Flag the envelope as being of another version, and add nothing.
    FlagVersion,
    /// Add the draft at this position of the envelope.
    Add(usize),
    /// Stop: the last addition failed.
    Abort,
    /// Every draft has been added.
    Finish,
}

/// The next action of an import of `dto` after `added` drafts have been
/// added, the last attempt having failed or not.
pub open spec fn import_action(dto: DtoView, added: int, failed: bool) -> ImportAction {
    if dto.version != TRANSFER_DATA_VERSION {
        ImportAction::FlagVersion
    } else if failed {
        ImportAction::Abort
    } else if 0 <= added < dto.entries.len() {
        ImportAction::Add(added as usize)
    } else {
        ImportAction::Finish
    }
}

/// Decides the next action of an import that adds the drafts of `dto` one
/// by one: the version is checked before the first draft is added, the
/// drafts are added in order, and the first failure ends the import.
pub fn next_import_action(dto: &EntriesDTO, added: usize, failed: bool) -> (r: ImportAction)
    ensures
        r == import_action(dto@, added as int, failed),
{
    if dto.version != TRANSFER_DATA_VERSION {
        ImportAction::FlagVersion
    } else if failed {
        ImportAction::Abort
    } else if added < dto.entries.len() {
        ImportAction::Add(added)
    } else {
        ImportAction::Finish
    }
}

/// The contract that every storage provider fulfils.
pub trait DataProvider {
    /// The entries that the provider holds, in the order in which it took
    /// them in. Every provider that is to be verified states here what it
    /// holds; as given, a provider holds nothing, which no provider that
    /// ever takes an entry in can keep to.
    open spec fn held(&self) -> Seq<EntryView> {
        Seq::empty()
    }

    /// Hands out all entries, in an order of the provider's choosing.
    fn load_all_entries(&self) -> (r: Result<Vec<Entry>, String>)
        ensures
            r is Ok ==> entry_views(r->Ok_0@).to_multiset() == self.held().to_multiset(),
    ;

    /// Adds a draft as a new entry under an id that no held entry has, and
    /// answers the new entry. A refusal changes nothing.
    fn add_entry(&mut self, entry: EntryDraft) -> (r: Result<Entry, ModifyEntryError>)
        ensures
            match r {
                Ok(e) => {
                    &&& e@.draft() == entry@
                    &&& index_of_id(old(self).held(), e.id) is None
                    &&& final(self).held() == old(self).held().push(e@)
                },
                Err(_) => final(self).held() == old(self).held(),
            },
    ;

    /// Removes the entry with the given id. It is a failure if no entry
    /// has that id, and a failure changes nothing.
    fn remove_entry(&mut self, entry_id: u32) -> (r: Result<(), String>)
        ensures
            match index_of_id(old(self).held(), entry_id) {
                Some(i) => final(self).held() == if r is Ok {
                    old(self).held().remove(i)
                } else {
                    old(self).held()
                },
                None => r is Err && final(self).held() == old(self).held(),
            },
    ;

    /// Replaces the held entry that has the id of `entry` by `entry`, and
    /// answers it. It fails if no entry has that id, and a failure changes
    /// nothing.
    fn update_entry(&mut self, entry: Entry) -> (r: Result<Entry, ModifyEntryError>)
        ensures
            match r {
                Ok(e) => {
                    &&& e@ == entry@
                    &&& index_of_id(old(self).held(), entry.id) is Some
                    &&& final(self).held() == old(self).held().update(
                        index_of_id(old(self).held(), entry.id)->Some_0,
                        e@,
                    )
                },
                Err(_) => final(self).held() == old(self).held(),
            },
            index_of_id(old(self).held(), entry.id) is None ==> r is Err,
    ;

    /// Exports the entries with the given ids, or all entries where no id
    /// is given, as drafts in an envelope of the current schema version.
    fn get_export_object(&self, entries_ids: &[u32]) -> (r: Result<EntriesDTO, String>)
        ensures
            r is Ok ==> r->Ok_0@ == exported(self.held(), entries_ids@),
    ;

    /// Imports the drafts of an envelope. The version of the envelope is
    /// checked first; then each draft is added as a new entry, one after
    /// the other, and the first refusal ends the import.
    fn import_entries(&mut self, entries_dto: EntriesDTO) -> (r: Result<(), ImportError>)
        ensures
            import_meets(old(self).held(), final(self).held(), entries_dto@, import_outcome(r)),
    {
        let ghost start = self.held();
        let ghost drafts = entries_dto@.entries;
        let mut added: usize = 0;
        let mut failure: Option<ModifyEntryError> = None;
        loop
            invariant
                start == old(self).held(),
                drafts == entries_dto@.entries,
                drafts.len() == entries_dto.entries.len(),
                added <= drafts.len(),
                start.is_prefix_of(self.held()),
                self.held().len() == start.len() + added,
                forall|j: int|
                    0 <= j < added ==> (#[trigger] self.held()[start.len() + j]).draft() == drafts[j],
                failure is Some ==> added < drafts.len(),
                entries_dto.version != TRANSFER_DATA_VERSION ==> self.held() == start,
            decreases drafts.len() - added, if failure is None { 1int } else { 0int },
        {
            match next_import_action(&entries_dto, added, failure.is_some()) {
                ImportAction::FlagVersion => {
                    return Err(
                        ImportError::VersionMismatch {
                            found: entries_dto.version,
                            expected: TRANSFER_DATA_VERSION,
                        },
                    );
                },
                ImportAction::Abort => {
                    match failure {
                        Some(err) => {
                            return Err(ImportError::Rejected(err));
                        },
                        None => {
                            return Ok(());
                        },
                    }
                },
                ImportAction::Finish => {
                    return Ok(());
                },
                ImportAction::Add(i) => {
                    let draft = entries_dto.entries[i].duplicate();
                    let ghost before = self.held();
                    match self.add_entry(draft) {
                        Ok(_) => {
                            proof {
                                assert forall|j: int| 0 <= j < added + 1 implies (
                                #[trigger] self.held()[start.len() + j]).draft() == drafts[j] by {
                                    if j < added {
                                        assert(before[start.len() + j].draft() == drafts[j]);
                                    }
                                }
                            }
                            added += 1;
                        },
                        Err(err) => {
                            failure = Some(err);
                        },
                    }
                },
            }
        }
    }
}

} // verus!
