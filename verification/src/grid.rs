//! The calendar grid: a Monday-aligned week-by-weekday matrix covering a
//! full year, built from the sparse date→color lookup.
//!
//! Cells are laid out week by week; within a week the rows run Monday (0)
//! to Sunday (6), so the flat index of the cell at week `w`, row `r` is
//! `7 * w + r`. The first `lead` cells (the weekday of January 1) and the
//! cells after December 31 are padding.

use vstd::prelude::*;
use vstd::arithmetic::div_mod::lemma_fundamental_div_mod_converse;
use crate::date::{
    days_in_year, lemma_date_of_index, next_date, spec_date_of_index, spec_days_in_year,
    spec_weekday, weekday, Date,
};
use crate::store::ColorLookup;

verus! {

/// One cell of the grid: padding outside the year, or a day with the color
/// the lookup assigns it, if any.
#[derive(Clone, Debug, PartialEq, Eq)]
pub enum Cell {
    Empty,
    Day(Date, Option<String>),
}

/// Spec-level image of a cell: the color as a character sequence.
pub enum CellView {
    Empty,
    Day(Date, Option<Seq<char>>),
}

impl View for Cell {
    type V = CellView;

    open spec fn view(&self) -> CellView {
        match self {
            Cell::Empty => CellView::Empty,
            Cell::Day(d, c) => CellView::Day(*d, c.deep_view()),
        }
    }
}

impl DeepView for Cell {
    type V = CellView;

    open spec fn deep_view(&self) -> CellView {
        self.view()
    }
}

/// A week column: exactly seven cells, Monday first.
#[derive(Clone, Debug, PartialEq, Eq)]
pub struct WeekColumn {
    pub cells: Vec<Cell>,
}

impl View for WeekColumn {
    type V = Seq<CellView>;

    open spec fn view(&self) -> Seq<CellView> {
        self.cells.deep_view()
    }
}

impl DeepView for WeekColumn {
    type V = Seq<CellView>;

    open spec fn deep_view(&self) -> Seq<CellView> {
        self.view()
    }
}

/// The grid for one year: an ordered sequence of week columns.
#[derive(Clone, Debug, PartialEq, Eq)]
pub struct CalendarYear {
    pub year: u32,
    pub weeks: Vec<WeekColumn>,
}

impl View for CalendarYear {
    type V = Seq<Seq<CellView>>;

    open spec fn view(&self) -> Seq<Seq<CellView>> {
        self.weeks.deep_view()
    }
}

/// Leading padding cells for year `y`: the weekday of January 1.
pub open spec fn spec_lead(y: u32) -> int {
    spec_weekday(Date { year: y, month: 1, day: 1 })
}

/// Number of week columns in the grid of year `y`.
pub open spec fn spec_week_count(y: u32) -> int {
    (spec_lead(y) + spec_days_in_year(y as int) + 6) / 7
}

/// The color a cell gets for date `d` under mapping `m`: absence of an
/// entry and an entry without a color both leave the cell colorless.
pub open spec fn spec_cell_color(m: Map<Date, Option<Seq<char>>>, d: Date) -> Option<Seq<char>> {
    if m.contains_key(d) {
        m[d]
    } else {
        None
    }
}

/// What the grid of year `y` holds at flat index `idx`.
pub open spec fn spec_grid_cell(y: u32, m: Map<Date, Option<Seq<char>>>, idx: int) -> CellView {
    let lead = spec_lead(y);
    if lead <= idx < lead + spec_days_in_year(y as int) {
        let d = spec_date_of_index(y, idx - lead);
        CellView::Day(d, spec_cell_color(m, d))
    } else {
        CellView::Empty
    }
}

/// Number of day (non-padding) cells in one week column.
pub open spec fn spec_week_day_count(w: Seq<CellView>) -> int
    decreases w.len(),
{
    if w.len() == 0 {
        0
    } else {
        spec_week_day_count(w.drop_last()) + if w.last() is Day {
            1int
        } else {
            0int
        }
    }
}

/// Number of day cells in a whole grid.
pub open spec fn spec_grid_day_count(g: Seq<Seq<CellView>>) -> int
    decreases g.len(),
{
    if g.len() == 0 {
        0
    } else {
        spec_grid_day_count(g.drop_last()) + spec_week_day_count(g.last())
    }
}

impl CalendarYear {
    /// Builds the grid for `year` from the date→color lookup: left padding
    /// up to January 1's weekday, one day cell per date of the year in
    /// order, right padding completing the last week. The grid's structure
    /// is a function of `year` and `lookup@` alone, every week column has
    /// exactly seven cells, the day cells number exactly the days of the
    /// year, and each day cell sits in its weekday's row.
    pub fn build(year: u32, lookup: &ColorLookup) -> (g: CalendarYear)
        requires
            1 <= year <= 9999,
        ensures
            g.year == year,
            g@.len() == spec_week_count(year),
            forall|w: int| 0 <= w < g@.len() ==> (#[trigger] g@[w]).len() == 7,
            forall|w: int, r: int|
                0 <= w < g@.len() && 0 <= r < 7 ==> #[trigger] g@[w][r] == spec_grid_cell(
                    year,
                    lookup@,
                    7 * w + r,
                ),
            spec_grid_day_count(g@) == spec_days_in_year(year as int),
            forall|w: int, r: int|
                0 <= w < g@.len() && 0 <= r < 7 ==> ((#[trigger] g@[w][r]) matches CellView::Day(
                    d,
                    _,
                ) ==> spec_weekday(d) == r),
    {
        let ghost m = lookup@;
        let jan1 = Date { year, month: 1, day: 1 };
        let lead: u8 = weekday(jan1);
        let total: u16 = days_in_year(year);
        let mut weeks: Vec<WeekColumn> = Vec::new();
        let mut cur: Vec<Cell> = Vec::new();
        let mut k: u8 = 0;
        while k < lead
            invariant
                k <= lead < 7,
                cur@.len() == k as int,
                forall|r: int| 0 <= r < k ==> #[trigger] cur.deep_view()[r] == CellView::Empty,
            decreases lead - k,
        {
            let ghost before = cur.deep_view();
            cur.push(Cell::Empty);
            proof {
                assert(cur.deep_view() =~= before.push(CellView::Empty));
            }
            k = k + 1;
        }
        proof {
            assert(spec_week_day_count(cur.deep_view()) == 0) by {
                lemma_all_empty_count(cur.deep_view());
            };
        }
        let mut d: Date = jan1;
        let mut i: u16 = 0;
        while i < total
            invariant
                1 <= year <= 9999,
                total as int == spec_days_in_year(year as int),
                lead as int == spec_lead(year),
                lead < 7,
                i <= total,
                m == lookup@,
                i < total ==> d == spec_date_of_index(year, i as int) && d.valid(),
                weeks@.len() * 7 + cur@.len() == lead + i,
                cur@.len() < 7,
                forall|w: int|
                    0 <= w < weeks@.len() ==> (#[trigger] weeks.deep_view()[w]).len() == 7,
                forall|w: int, r: int|
                    0 <= w < weeks@.len() && 0 <= r < 7 ==> #[trigger] weeks.deep_view()[w][r]
                        == spec_grid_cell(year, m, 7 * w + r),
                forall|r: int|
                    0 <= r < cur@.len() ==> #[trigger] cur.deep_view()[r] == spec_grid_cell(
                        year,
                        m,
                        7 * weeks@.len() + r,
                    ),
                spec_grid_day_count(weeks.deep_view()) + spec_week_day_count(cur.deep_view())
                    == i as int,
            decreases total - i,
        {
            proof {
                lemma_date_of_index(year, i as int);
            }
            let color = lookup.get_color(d);
            let ghost cur_before = cur.deep_view();
            cur.push(Cell::Day(d, color));
            proof {
                assert(cur.deep_view() =~= cur_before.push(
                    CellView::Day(d, color.deep_view()),
                ));
                lemma_count_push(cur_before, CellView::Day(d, color.deep_view()));
                assert(cur.deep_view()[cur@.len() - 1] == spec_grid_cell(
                    year,
                    m,
                    7 * weeks@.len() + cur@.len() - 1,
                ));
            }
            if cur.len() == 7 {
                let ghost weeks_before = weeks.deep_view();
                let ghost full = cur.deep_view();
                weeks.push(WeekColumn { cells: cur });
                cur = Vec::new();
                proof {
                    assert(weeks.deep_view() =~= weeks_before.push(full));
                    lemma_grid_count_push(weeks_before, full);
                    assert(cur.deep_view() =~= Seq::<CellView>::empty());
                }
            }
            i = i + 1;
            if i < total {
                proof {
                    lemma_date_of_index(year, i as int - 1);
                    if d.month == 12 && d.day == 31 {
                        crate::date::lemma_dec31(year as int);
                        assert(false);
                    }
                }
                d = next_date(d);
            }
        }
        let ghost rem = cur@.len();
        if cur.len() > 0 {
            let ghost cells_before = cur.deep_view();
            while cur.len() < 7
                invariant
                    0 < cur@.len() <= 7,
                    m == lookup@,
                    rem <= cur@.len(),
                    weeks@.len() * 7 + rem == lead as int + total as int,
                    forall|r: int|
                        0 <= r < rem ==> #[trigger] cur.deep_view()[r] == spec_grid_cell(
                            year,
                            m,
                            7 * weeks@.len() + r,
                        ),
                    forall|r: int|
                        rem <= r < cur@.len() ==> #[trigger] cur.deep_view()[r]
                            == CellView::Empty,
                    spec_week_day_count(cur.deep_view()) == spec_week_day_count(cells_before),
                decreases 7 - cur@.len(),
            {
                let ghost before = cur.deep_view();
                cur.push(Cell::Empty);
                proof {
                    assert(cur.deep_view() =~= before.push(CellView::Empty));
                    lemma_count_push(before, CellView::Empty);
                }
            }
            let ghost weeks_before = weeks.deep_view();
            let ghost full = cur.deep_view();
            proof {
                // padding cells lie at or past `lead + total`, so they match
                // the spec's trailing `Empty` cells
                assert(forall|r: int|
                    0 <= r < 7 ==> #[trigger] full[r] == spec_grid_cell(
                        year,
                        m,
                        7 * weeks@.len() + r,
                    ));
            }
            weeks.push(WeekColumn { cells: cur });
            proof {
                assert(weeks.deep_view() =~= weeks_before.push(full));
                lemma_grid_count_push(weeks_before, full);
                let n = lead as int + total as int;
                // weeks now number ceil(n / 7)
                lemma_fundamental_div_mod_converse(n + 6, 7, weeks@.len() as int, rem - 1);
            }
        } else {
            proof {
                let n = lead as int + total as int;
                lemma_fundamental_div_mod_converse(n + 6, 7, weeks@.len() as int, 6);
            }
        }
        let g = CalendarYear { year, weeks };
        proof {
            assert forall|w: int, r: int|
                0 <= w < g@.len() && 0 <= r < 7 implies ((#[trigger] g@[w][r])
                matches CellView::Day(d0, _) ==> spec_weekday(d0) == r) by {
                if g@[w][r] matches CellView::Day(d0, _) {
                    lemma_grid_cell_row(year, m, w, r);
                }
            };
        }
        g
    }
}

/// A week of padding cells holds no day cell.
proof fn lemma_all_empty_count(w: Seq<CellView>)
    requires
        forall|r: int| 0 <= r < w.len() ==> w[r] == CellView::Empty,
    ensures
        spec_week_day_count(w) == 0,
    decreases w.len(),
{
    if w.len() > 0 {
        lemma_all_empty_count(w.drop_last());
    }
}

/// Appending a cell adds one to a week's day count exactly when the cell
/// is a day cell.
proof fn lemma_count_push(w: Seq<CellView>, c: CellView)
    ensures
        spec_week_day_count(w.push(c)) == spec_week_day_count(w) + if c is Day {
            1int
        } else {
            0int
        },
{
    assert(w.push(c).drop_last() =~= w);
}

/// Appending a week adds its day count to the grid's.
proof fn lemma_grid_count_push(g: Seq<Seq<CellView>>, w: Seq<CellView>)
    ensures
        spec_grid_day_count(g.push(w)) == spec_grid_day_count(g) + spec_week_day_count(w),
{
    assert(g.push(w).drop_last() =~= g);
}

/// A day cell at week `w`, row `r` carries a date whose weekday is `r`.
proof fn lemma_grid_cell_row(y: u32, m: Map<Date, Option<Seq<char>>>, w: int, r: int)
    requires
        1 <= y <= 9999,
        0 <= w,
        0 <= r < 7,
        spec_grid_cell(y, m, 7 * w + r) is Day,
    ensures
        spec_grid_cell(y, m, 7 * w + r) matches CellView::Day(d, _) ==> spec_weekday(d) == r,
{
    let lead = spec_lead(y);
    let idx = 7 * w + r;
    let i = idx - lead;
    lemma_date_of_index(y, i);
    lemma_fundamental_div_mod_converse(idx, 7, w, r);
}

/// The grid's structure is a function of the year and the mapping alone:
/// any two grids whose cells both satisfy [`CalendarYear::build`]'s
/// description are equal. Building twice from the same inputs therefore
/// yields an identical structure.
pub proof fn lemma_grid_deterministic(
    y: u32,
    m: Map<Date, Option<Seq<char>>>,
    g1: Seq<Seq<CellView>>,
    g2: Seq<Seq<CellView>>,
)
    requires
        g1.len() == spec_week_count(y),
        g2.len() == spec_week_count(y),
        forall|w: int| 0 <= w < g1.len() ==> (#[trigger] g1[w]).len() == 7,
        forall|w: int| 0 <= w < g2.len() ==> (#[trigger] g2[w]).len() == 7,
        forall|w: int, r: int|
            0 <= w < g1.len() && 0 <= r < 7 ==> #[trigger] g1[w][r] == spec_grid_cell(
                y,
                m,
                7 * w + r,
            ),
        forall|w: int, r: int|
            0 <= w < g2.len() && 0 <= r < 7 ==> #[trigger] g2[w][r] == spec_grid_cell(
                y,
                m,
                7 * w + r,
            ),
    ensures
        g1 =~~= g2,
{
    assert forall|w: int| 0 <= w < g1.len() implies g1[w] =~= g2[w] by {
        assert(forall|r: int| 0 <= r < 7 ==> g1[w][r] == g2[w][r]);
    };
}

} // verus!
