use mood_journal::date::Date;
use mood_journal::store::{build_color_lookup, has_entry_for, ColorLookup, DayRecord};

fn record(date: Date, color: Option<&str>) -> DayRecord {
    DayRecord {
        date,
        color: color.map(|c| c.to_string()),
        transcript: String::new(),
        audio_path: String::new(),
    }
}

fn d(year: u32, month: u8, day: u8) -> Date {
    Date { year, month, day }
}

#[test]
fn lookup_finds_inserted_color() {
    let records = vec![record(d(2025, 3, 10), Some("#40C463"))];
    let lookup = build_color_lookup(&records);
    assert_eq!(lookup.get_color(d(2025, 3, 10)), Some("#40C463".to_string()));
    assert_eq!(lookup.get_color(d(2025, 3, 11)), None);
}

#[test]
fn later_record_wins_for_same_date() {
    let records = vec![
        record(d(2025, 3, 10), Some("#111111")),
        record(d(2025, 5, 1), Some("#ABCDEF")),
        record(d(2025, 3, 10), Some("#222222")),
    ];
    let lookup = build_color_lookup(&records);
    assert_eq!(lookup.get_color(d(2025, 3, 10)), Some("#222222".to_string()));
    assert_eq!(lookup.get_color(d(2025, 5, 1)), Some("#ABCDEF".to_string()));
}

#[test]
fn record_without_color_resolves_to_none() {
    let records = vec![
        record(d(2025, 3, 10), Some("#111111")),
        record(d(2025, 3, 10), None),
    ];
    let lookup = build_color_lookup(&records);
    assert_eq!(lookup.get_color(d(2025, 3, 10)), None);
}

#[test]
fn empty_lookup_has_no_colors() {
    let lookup = ColorLookup::new();
    assert_eq!(lookup.get_color(d(2025, 1, 1)), None);
}

#[test]
fn insert_overwrites_in_place() {
    let mut lookup = ColorLookup::new();
    lookup.insert(d(2025, 1, 2), Some("#000000".to_string()));
    lookup.insert(d(2025, 1, 2), Some("#FFFFFF".to_string()));
    assert_eq!(lookup.get_color(d(2025, 1, 2)), Some("#FFFFFF".to_string()));
}

#[test]
fn knows_which_dates_have_entries() {
    let records = vec![
        record(d(2025, 3, 10), Some("#40C463")),
        record(d(2025, 3, 12), None),
    ];
    assert!(has_entry_for(&records, d(2025, 3, 10)));
    assert!(has_entry_for(&records, d(2025, 3, 12)));
    assert!(!has_entry_for(&records, d(2025, 3, 11)));
    assert!(!has_entry_for(&Vec::new(), d(2025, 3, 10)));
}
