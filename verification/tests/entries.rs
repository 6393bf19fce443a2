use tui_journal::entry::{
    copy_strings, EntriesDTO, Entry, EntryDate, EntryDraft, ModifyEntryError, TRANSFER_DATA_VERSION,
};

fn tags_of(names: &[&str]) -> Vec<String> {
    names.iter().map(|n| n.to_string()).collect()
}

#[test]
fn the_transfer_version_is_fixed() {
    assert_eq!(TRANSFER_DATA_VERSION, 100);
}

#[test]
fn dates_are_ordered_by_seconds_and_nanoseconds() {
    let a = EntryDate::new(10, 5);
    let b = EntryDate::new(10, 6);
    let c = EntryDate::new(11, 0);
    let d = EntryDate::new(-1, 999);
    assert!(a.is_before(&b));
    assert!(b.is_before(&c));
    assert!(a.is_before(&c));
    assert!(d.is_before(&a));
    assert!(!b.is_before(&a));
    assert!(!a.is_before(&a));
}

#[test]
fn an_entry_holds_what_it_is_made_of() {
    let e = Entry::new(7, EntryDate::new(3, 4), "T".into(), "C".into(), tags_of(&["x", "y"]));
    assert_eq!(e.id, 7);
    assert_eq!(e.date, EntryDate { secs: 3, nanos: 4 });
    assert_eq!(e.title, "T");
    assert_eq!(e.content, "C");
    assert_eq!(e.tags, tags_of(&["x", "y"]));
}

#[test]
fn a_new_draft_has_no_content() {
    let d = EntryDraft::new(EntryDate::new(1, 2), "Title".into(), tags_of(&["a"]));
    assert_eq!(d.date, EntryDate::new(1, 2));
    assert_eq!(d.title, "Title");
    assert_eq!(d.content, "");
    assert_eq!(d.tags, tags_of(&["a"]));
}

#[test]
fn a_draft_becomes_an_entry_under_an_id() {
    let mut d = EntryDraft::new(EntryDate::new(1, 2), "Title".into(), tags_of(&["a", "b"]));
    d.content = "Body".into();
    let e = Entry::from_draft(42, d.clone());
    assert_eq!(
        e,
        Entry::new(42, EntryDate::new(1, 2), "Title".into(), "Body".into(), tags_of(&["a", "b"]))
    );
    assert_eq!(EntryDraft::from_entry(e.clone()), d);
    assert_eq!(e.to_draft(), d);
}

#[test]
fn copies_equal_their_originals() {
    let e = Entry::new(1, EntryDate::new(9, 9), "t".into(), "c".into(), tags_of(&["k"]));
    assert_eq!(e.duplicate(), e);
    let d = e.to_draft();
    assert_eq!(d.duplicate(), d);
    assert_eq!(copy_strings(&tags_of(&["a", "", "b"])), tags_of(&["a", "", "b"]));
}

#[test]
fn an_envelope_is_stamped_with_the_current_version() {
    let d = EntryDraft::new(EntryDate::new(1, 0), "a".into(), Vec::new());
    let dto = EntriesDTO::new(vec![d.clone()]);
    assert_eq!(dto.version, 100);
    assert_eq!(dto.entries, vec![d]);
    assert_eq!(EntriesDTO::new(Vec::new()).entries.len(), 0);
}

#[test]
fn an_error_shows_its_text() {
    assert_eq!(ModifyEntryError::ValidationError("bad title".into()).message(), "bad title");
    assert_eq!(ModifyEntryError::DataError("disk full".into()).message(), "disk full");
}
