use mood_journal::date::Date;
use mood_journal::grid::{CalendarYear, Cell};
use mood_journal::store::{build_color_lookup, ColorLookup, DayRecord};

fn d(year: u32, month: u8, day: u8) -> Date {
    Date { year, month, day }
}

fn day_cell_count(g: &CalendarYear) -> usize {
    g.weeks
        .iter()
        .flat_map(|w| w.cells.iter())
        .filter(|c| matches!(c, Cell::Day(_, _)))
        .count()
}

#[test]
fn every_week_has_seven_cells_and_days_match_the_year() {
    for year in [2023u32, 2024, 2025, 1900, 2000] {
        let g = CalendarYear::build(year, &ColorLookup::new());
        assert!(g.weeks.iter().all(|w| w.cells.len() == 7));
        let expected = if (year % 4 == 0 && year % 100 != 0) || year % 400 == 0 { 366 } else { 365 };
        assert_eq!(day_cell_count(&g), expected);
    }
}

#[test]
fn grid_of_2025_has_53_weeks() {
    let g = CalendarYear::build(2025, &ColorLookup::new());
    assert_eq!(g.weeks.len(), 53);
}

#[test]
fn building_twice_yields_identical_structure() {
    let records = vec![DayRecord {
        date: d(2025, 3, 10),
        color: Some("#40C463".to_string()),
        transcript: "a day".to_string(),
        audio_path: "audio/2025-03-10.wav".to_string(),
    }];
    let lookup = build_color_lookup(&records);
    let g1 = CalendarYear::build(2025, &lookup);
    let g2 = CalendarYear::build(2025, &lookup);
    assert_eq!(g1, g2);
}

#[test]
fn first_week_of_2025_leads_with_two_padding_cells() {
    // January 1, 2025 is a Wednesday, two weekday rows after Monday.
    let g = CalendarYear::build(2025, &ColorLookup::new());
    let first = &g.weeks[0].cells;
    assert_eq!(first[0], Cell::Empty);
    assert_eq!(first[1], Cell::Empty);
    assert_eq!(first[2], Cell::Day(d(2025, 1, 1), None));
    assert_eq!(first[3], Cell::Day(d(2025, 1, 2), None));
    assert_eq!(first[6], Cell::Day(d(2025, 1, 5), None));
}

#[test]
fn monday_aligned_year_has_no_leading_padding() {
    // January 1, 2024 is a Monday.
    let g = CalendarYear::build(2024, &ColorLookup::new());
    assert_eq!(g.weeks[0].cells[0], Cell::Day(d(2024, 1, 1), None));
}

#[test]
fn final_week_is_right_padded() {
    // December 31, 2025 is a Wednesday: four trailing padding cells.
    let g = CalendarYear::build(2025, &ColorLookup::new());
    let last = &g.weeks[g.weeks.len() - 1].cells;
    assert_eq!(last[2], Cell::Day(d(2025, 12, 31), None));
    assert_eq!(last[3], Cell::Empty);
    assert_eq!(last[6], Cell::Empty);
}

#[test]
fn looked_up_color_lands_on_its_date() {
    let records = vec![DayRecord {
        date: d(2025, 3, 10),
        color: Some("#40C463".to_string()),
        transcript: String::new(),
        audio_path: String::new(),
    }];
    let lookup = build_color_lookup(&records);
    let g = CalendarYear::build(2025, &lookup);
    // day-of-year of March 10, 2025 is 69; with 2 leading cells its flat
    // index is 70 = 7 * 10 + 0: week 10, Monday row.
    assert_eq!(
        g.weeks[10].cells[0],
        Cell::Day(d(2025, 3, 10), Some("#40C463".to_string()))
    );
    let colored = g
        .weeks
        .iter()
        .flat_map(|w| w.cells.iter())
        .filter(|c| matches!(c, Cell::Day(_, Some(_))))
        .count();
    assert_eq!(colored, 1);
}
