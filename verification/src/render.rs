//! The heatmap renderer: one display row per weekday, walking the week
//! columns left to right. A day cell with a color paints a filled glyph
//! in exactly that color; padding cells and days without a color show a
//! blank glyph in the lightest palette tone.

use vstd::prelude::*;
use colored::Colorize;
use crate::color::{hex_to_rgb, palette_tone, spec_hex_to_rgb, spec_palette_tone};
use crate::grid::{CalendarYear, Cell, CellView};

verus! {

/// How one cell is displayed: filled or blank, and in which color.
#[derive(Clone, Copy, PartialEq, Eq, Structural, Debug)]
pub struct CellGlyph {
    pub filled: bool,
    pub red: u8,
    pub green: u8,
    pub blue: u8,
}

/// The glyph a cell renders as: a colored day fills with its color's RGB
/// reading (malformed strings thus fall back to mid-gray channels, never
/// failing the pass); everything else is blank in the lightest tone.
pub open spec fn spec_cell_glyph(c: CellView) -> CellGlyph {
    match c {
        CellView::Day(_, Some(col)) => {
            let rgb = spec_hex_to_rgb(col);
            CellGlyph { filled: true, red: rgb.0 as u8, green: rgb.1 as u8, blue: rgb.2 as u8 }
        },
        _ => {
            let rgb = spec_palette_tone(0);
            CellGlyph { filled: false, red: rgb.0 as u8, green: rgb.1 as u8, blue: rgb.2 as u8 }
        },
    }
}

/// Renders the grid by weekday row then week column: row `r` holds the
/// glyph of row `r`'s cell in every week, left to right.
pub fn render_cells(g: &CalendarYear) -> (rows: Vec<Vec<CellGlyph>>)
    requires
        forall|w: int| 0 <= w < g@.len() ==> (#[trigger] g@[w]).len() == 7,
    ensures
        rows@.len() == 7,
        forall|r: int| 0 <= r < 7 ==> (#[trigger] rows@[r])@.len() == g@.len(),
        forall|r: int, w: int|
            0 <= r < 7 && 0 <= w < g@.len() ==> (#[trigger] rows@[r]@[w]) == spec_cell_glyph(
                g@[w][r],
            ),
{
    let mut rows: Vec<Vec<CellGlyph>> = Vec::new();
    let mut r: usize = 0;
    while r < 7
        invariant
            r <= 7,
            rows@.len() == r,
            forall|w: int| 0 <= w < g@.len() ==> (#[trigger] g@[w]).len() == 7,
            forall|q: int| 0 <= q < r ==> (#[trigger] rows@[q])@.len() == g@.len(),
            forall|q: int, w: int|
                0 <= q < r && 0 <= w < g@.len() ==> (#[trigger] rows@[q]@[w]) == spec_cell_glyph(
                    g@[w][q],
                ),
        decreases 7 - r,
    {
        let mut row: Vec<CellGlyph> = Vec::new();
        let mut w: usize = 0;
        while w < g.weeks.len()
            invariant
                r < 7,
                w <= g.weeks@.len(),
                row@.len() == w,
                forall|x: int| 0 <= x < g@.len() ==> (#[trigger] g@[x]).len() == 7,
                forall|x: int|
                    0 <= x < w ==> (#[trigger] row@[x]) == spec_cell_glyph(g@[x][r as int]),
            decreases g.weeks@.len() - w,
        {
            let week = &g.weeks[w];
            proof {
                assert(g@[w as int].len() == 7);
                assert(week.cells@.len() == 7);
            }
            let glyph = match &week.cells[r] {
                Cell::Day(_, Some(col)) => {
                    let (cr, cg, cb) = hex_to_rgb(col.as_str());
                    CellGlyph { filled: true, red: cr, green: cg, blue: cb }
                },
                _ => {
                    let (cr, cg, cb) = palette_tone(0);
                    CellGlyph { filled: false, red: cr, green: cg, blue: cb }
                },
            };
            row.push(glyph);
            w = w + 1;
        }
        rows.push(row);
        r = r + 1;
    }
    rows
}

/// Relies on colored's `Colorize::truecolor`: paints one glyph in the
/// given RGB color, with a trailing space. Whether escape sequences wrap
/// the glyph depends on the terminal environment, so only what holds of
/// every outcome is stated: colored's display always writes the glyph
/// itself, plain or wrapped, and the format appends one space, so the
/// text is at least one character longer than the glyph and ends in a
/// space.
#[verifier::external_body]
fn paint_glyph(glyph: &str, red: u8, green: u8, blue: u8) -> (s: String)
    ensures
        s@.len() >= glyph@.len() + 1,
        s@.len() > 0 && s@.last() == ' ',
{
    format!("{} ", glyph.truecolor(red, green, blue))
}

/// Paints the rendered grid: seven display lines, one per weekday, each
/// the painted glyphs of that row's cells, left to right. The glyph and
/// color choice per cell is fixed by [`spec_cell_glyph`]; the painted
/// text depends on the terminal environment, but every cell's text
/// carries its glyph and trailing space, so it is never empty.
pub fn render_lines(g: &CalendarYear) -> (lines: Vec<Vec<String>>)
    requires
        forall|w: int| 0 <= w < g@.len() ==> (#[trigger] g@[w]).len() == 7,
    ensures
        lines@.len() == 7,
        forall|r: int| 0 <= r < 7 ==> (#[trigger] lines@[r])@.len() == g@.len(),
        forall|r: int, w: int|
            0 <= r < 7 && 0 <= w < g@.len() ==> (#[trigger] lines@[r]@[w])@.len() >= 2,
{
    let cells = render_cells(g);
    let mut lines: Vec<Vec<String>> = Vec::new();
    let mut r: usize = 0;
    while r < 7
        invariant
            r <= 7,
            lines@.len() == r,
            cells@.len() == 7,
            forall|q: int| 0 <= q < 7 ==> (#[trigger] cells@[q])@.len() == g@.len(),
            forall|q: int| 0 <= q < r ==> (#[trigger] lines@[q])@.len() == g@.len(),
            forall|q: int, x: int|
                0 <= q < r && 0 <= x < g@.len() ==> (#[trigger] lines@[q]@[x])@.len() >= 2,
        decreases 7 - r,
    {
        let row = &cells[r];
        let mut line: Vec<String> = Vec::new();
        let mut w: usize = 0;
        while w < row.len()
            invariant
                row@.len() == cells@[r as int]@.len(),
                r < 7,
                cells@.len() == 7,
                w <= row@.len(),
                line@.len() == w,
                forall|x: int| 0 <= x < w ==> (#[trigger] line@[x])@.len() >= 2,
            decreases row@.len() - w,
        {
            let c = &row[w];
            let painted = if c.filled {
                let p = paint_glyph("■", c.red, c.green, c.blue);
                proof {
                    reveal_strlit("■");
                }
                p
            } else {
                let p = paint_glyph("□", c.red, c.green, c.blue);
                proof {
                    reveal_strlit("□");
                }
                p
            };
            line.push(painted);
            w = w + 1;
        }
        lines.push(line);
        r = r + 1;
    }
    lines
}

} // verus!
