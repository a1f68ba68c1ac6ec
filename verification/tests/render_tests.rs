use mood_journal::color::{hex_to_rgb, normalize_color_reply, palette_tone, trim_str};
use mood_journal::date::Date;
use mood_journal::grid::CalendarYear;
use mood_journal::render::{render_cells, render_lines, CellGlyph};
use mood_journal::store::{build_color_lookup, ColorLookup, DayRecord};

fn d(year: u32, month: u8, day: u8) -> Date {
    Date { year, month, day }
}

#[test]
fn well_formed_colors_parse_exactly() {
    assert_eq!(hex_to_rgb("#40C463"), (64, 196, 99));
    assert_eq!(hex_to_rgb("40C463"), (64, 196, 99));
    assert_eq!(hex_to_rgb("#ffffff"), (255, 255, 255));
    assert_eq!(hex_to_rgb("#000000"), (0, 0, 0));
    assert_eq!(hex_to_rgb("##FF8000"), (255, 128, 0));
}

#[test]
fn malformed_colors_fall_back_to_mid_gray() {
    assert_eq!(hex_to_rgb(""), (128, 128, 128));
    assert_eq!(hex_to_rgb("#"), (128, 128, 128));
    assert_eq!(hex_to_rgb("xyz"), (128, 128, 128));
    assert_eq!(hex_to_rgb("#zzzzzz"), (128, 128, 128));
    assert_eq!(hex_to_rgb("#④⑤⑥⑦⑧⑨"), (128, 128, 128));
}

#[test]
fn each_channel_falls_back_independently() {
    assert_eq!(hex_to_rgb("#40C4"), (64, 196, 128));
    assert_eq!(hex_to_rgb("#40GZ63"), (64, 128, 99));
    assert_eq!(hex_to_rgb("#XY0080"), (128, 0, 128));
}

#[test]
fn palette_matches_the_five_tones() {
    assert_eq!(palette_tone(0), (235, 237, 240));
    assert_eq!(palette_tone(1), (155, 233, 168));
    assert_eq!(palette_tone(2), (64, 196, 99));
    assert_eq!(palette_tone(3), (48, 161, 78));
    assert_eq!(palette_tone(4), (33, 110, 57));
}

#[test]
fn single_record_renders_one_filled_cell() {
    let records = vec![DayRecord {
        date: d(2025, 3, 10),
        color: Some("#40C463".to_string()),
        transcript: String::new(),
        audio_path: String::new(),
    }];
    let lookup = build_color_lookup(&records);
    let g = CalendarYear::build(2025, &lookup);
    let rows = render_cells(&g);
    assert_eq!(rows.len(), 7);
    for row in &rows {
        assert_eq!(row.len(), g.weeks.len());
    }
    let filled: Vec<&CellGlyph> = rows.iter().flatten().filter(|c| c.filled).collect();
    assert_eq!(filled.len(), 1);
    assert_eq!((filled[0].red, filled[0].green, filled[0].blue), (64, 196, 99));
    // March 10, 2025 is a Monday in week 10.
    assert!(rows[0][10].filled);
    // every other cell shows the lightest palette tone
    for cell in rows.iter().flatten().filter(|c| !c.filled) {
        assert_eq!((cell.red, cell.green, cell.blue), (235, 237, 240));
    }
}

#[test]
fn malformed_stored_color_still_renders() {
    let records = vec![DayRecord {
        date: d(2025, 3, 10),
        color: Some("not-a-color".to_string()),
        transcript: String::new(),
        audio_path: String::new(),
    }];
    let lookup = build_color_lookup(&records);
    let g = CalendarYear::build(2025, &lookup);
    let rows = render_cells(&g);
    let filled: Vec<&CellGlyph> = rows.iter().flatten().filter(|c| c.filled).collect();
    assert_eq!(filled.len(), 1);
    assert_eq!((filled[0].red, filled[0].green, filled[0].blue), (128, 128, 128));
}

#[test]
fn painted_lines_cover_the_whole_grid() {
    let g = CalendarYear::build(2025, &ColorLookup::new());
    let lines = render_lines(&g);
    assert_eq!(lines.len(), 7);
    for line in &lines {
        assert_eq!(line.len(), g.weeks.len());
        for cell_text in line {
            // at least the glyph and its trailing space survive painting
            assert!(cell_text.chars().count() >= 2);
        }
    }
}

#[test]
fn trims_surrounding_whitespace() {
    assert_eq!(trim_str("  #ABC123 \n"), "#ABC123");
    assert_eq!(trim_str("#ABC123"), "#ABC123");
    assert_eq!(trim_str(" \t\r\n "), "");
    assert_eq!(trim_str(""), "");
    assert_eq!(trim_str("a b"), "a b");
}

#[test]
fn trims_the_whole_unicode_whitespace_set() {
    // form feed, vertical tab, no-break space, next line, ideographic
    // space: everything str::trim removes
    assert_eq!(trim_str("\u{0C}#ABC123\u{A0}"), "#ABC123");
    assert_eq!(trim_str("\u{0B}\u{85}x\u{2028}\u{3000}"), "x");
    assert_eq!(trim_str("\u{2000}\u{200A}\u{202F}\u{205F}\u{1680}"), "");
    for probe in ["\u{0C}#123456 ", " #123456\u{A0}", "\u{3000}#123456\u{0B}"] {
        assert_eq!(trim_str(probe), probe.trim());
    }
    // zero-width space is not whitespace and must survive
    assert_eq!(trim_str("\u{200B}a"), "\u{200B}a");
}

#[test]
fn chat_reply_normalization() {
    assert_eq!(normalize_color_reply(Some(" #ABC123 \n".to_string())), "#ABC123");
    assert_eq!(normalize_color_reply(None), "#9BE9A8");
}
