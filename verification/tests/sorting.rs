use tui_journal::active::arrange_entries;
use tui_journal::entry::{Entry, EntryDate};
use tui_journal::filter::Filter;
use tui_journal::sorter::{SortDirection, SortKey, Sorter};

fn dated(id: u32, secs: i64, title: &str) -> Entry {
    Entry::new(id, EntryDate::new(secs, 0), title.to_string(), String::new(), Vec::new())
}

fn ids(view: &[&Entry]) -> Vec<u32> {
    view.iter().map(|e| e.id).collect()
}

fn sample() -> Vec<Entry> {
    vec![
        dated(4, 30, "delta"),
        dated(1, 10, "charlie"),
        dated(3, 20, "alpha"),
        dated(2, 20, "bravo"),
        dated(5, 10, "alpha"),
    ]
}

#[test]
fn the_default_order_is_newest_first() {
    assert_eq!(Sorter::default(), Sorter::new(SortKey::Date, SortDirection::Descending));
}

#[test]
fn by_date_ascending_with_ties_by_id() {
    let entries = sample();
    let sorter = Sorter::new(SortKey::Date, SortDirection::Ascending);
    assert_eq!(ids(&arrange_entries(&entries, &None, &sorter)), vec![1, 5, 2, 3, 4]);
}

#[test]
fn by_date_descending_with_ties_by_ascending_id() {
    let entries = sample();
    let sorter = Sorter::new(SortKey::Date, SortDirection::Descending);
    assert_eq!(ids(&arrange_entries(&entries, &None, &sorter)), vec![4, 2, 3, 1, 5]);
}

#[test]
fn by_title_ascending_with_ties_by_id() {
    let entries = sample();
    let sorter = Sorter::new(SortKey::Title, SortDirection::Ascending);
    assert_eq!(ids(&arrange_entries(&entries, &None, &sorter)), vec![3, 5, 2, 1, 4]);
}

#[test]
fn by_title_descending_with_ties_by_ascending_id() {
    let entries = sample();
    let sorter = Sorter::new(SortKey::Title, SortDirection::Descending);
    assert_eq!(ids(&arrange_entries(&entries, &None, &sorter)), vec![4, 1, 2, 3, 5]);
}

#[test]
fn nanoseconds_decide_within_a_second() {
    let entries = vec![
        Entry::new(1, EntryDate::new(5, 900), "a".into(), String::new(), Vec::new()),
        Entry::new(2, EntryDate::new(5, 100), "b".into(), String::new(), Vec::new()),
    ];
    let sorter = Sorter::new(SortKey::Date, SortDirection::Ascending);
    assert_eq!(ids(&arrange_entries(&entries, &None, &sorter)), vec![2, 1]);
}

#[test]
fn the_order_of_the_store_does_not_matter() {
    let sorter = Sorter::new(SortKey::Title, SortDirection::Ascending);
    let forward = sample();
    let mut backward = sample();
    backward.reverse();
    assert_eq!(
        ids(&arrange_entries(&forward, &None, &sorter)),
        ids(&arrange_entries(&backward, &None, &sorter))
    );
}

#[test]
fn computing_the_view_twice_gives_the_same_view() {
    let entries = sample();
    let filter = Some(Filter::new(Vec::new(), "a".to_string()));
    let sorter = Sorter::new(SortKey::Date, SortDirection::Descending);
    let first = arrange_entries(&entries, &filter, &sorter);
    let second = arrange_entries(&entries, &filter, &sorter);
    assert_eq!(first, second);
    assert_eq!(ids(&first), vec![4, 2, 3, 1, 5]);
}

#[test]
fn the_view_holds_only_what_passes_the_filter() {
    let entries = sample();
    let filter = Some(Filter::new(Vec::new(), "alpha".to_string()));
    let sorter = Sorter::new(SortKey::Date, SortDirection::Ascending);
    assert_eq!(ids(&arrange_entries(&entries, &filter, &sorter)), vec![5, 3]);
}

#[test]
fn the_view_of_an_empty_store_is_empty() {
    let entries: Vec<Entry> = Vec::new();
    let sorter = Sorter::default();
    assert!(arrange_entries(&entries, &None, &sorter).is_empty());
}

#[test]
fn precedes_is_a_strict_order_on_samples() {
    let entries = sample();
    for sorter in [
        Sorter::new(SortKey::Date, SortDirection::Ascending),
        Sorter::new(SortKey::Date, SortDirection::Descending),
        Sorter::new(SortKey::Title, SortDirection::Ascending),
        Sorter::new(SortKey::Title, SortDirection::Descending),
    ] {
        for a in &entries {
            assert!(!sorter.entry_precedes(a, a));
            for b in &entries {
                if a.id != b.id {
                    assert!(sorter.entry_precedes(a, b) != sorter.entry_precedes(b, a));
                }
                for c in &entries {
                    if sorter.entry_precedes(a, b) && sorter.entry_precedes(b, c) {
                        assert!(sorter.entry_precedes(a, c));
                    }
                }
            }
        }
    }
}
