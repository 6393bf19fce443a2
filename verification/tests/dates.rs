use chrono::{DateTime, Utc};
use tui_journal::entry::EntryDate;

fn as_entry_date(date: &DateTime<Utc>) -> EntryDate {
    EntryDate::new(date.timestamp(), date.timestamp_subsec_nanos())
}

fn sample_dates() -> Vec<DateTime<Utc>> {
    [
        (-86_400, 0),
        (-1, 999_999_999),
        (0, 0),
        (0, 1),
        (59, 999_999_999),
        (59, 1_500_000_000),
        (60, 0),
        (1_700_000_000, 123),
        (1_700_000_000, 124),
        (1_700_000_001, 0),
    ]
    .iter()
    .map(|(secs, nanos)| DateTime::from_timestamp(*secs, *nanos).unwrap())
    .collect()
}

#[test]
fn entry_dates_are_ordered_as_the_dates_they_come_from() {
    let dates = sample_dates();
    for a in &dates {
        for b in &dates {
            assert_eq!(as_entry_date(a).is_before(&as_entry_date(b)), a < b, "{a} and {b}");
        }
    }
}

#[test]
fn entry_dates_keep_the_whole_date() {
    for date in sample_dates() {
        let kept = as_entry_date(&date);
        assert_eq!(DateTime::from_timestamp(kept.secs, kept.nanos), Some(date));
    }
}
