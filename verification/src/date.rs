//! Calendar dates as plain values: validity, leap years, day numbering and
//! weekdays in the proleptic Gregorian calendar.
//!
//! Weekdays are numbered from Monday: 0 = Monday .. 6 = Sunday. The day
//! number of a date counts the days since January 1 of year 1, which was a
//! Monday in the proleptic Gregorian calendar, so the weekday of a date is
//! its day number modulo 7.

use vstd::prelude::*;
use vstd::arithmetic::div_mod::{
    lemma_add_mod_noop, lemma_fundamental_div_mod, lemma_fundamental_div_mod_converse,
    lemma_mod_bound, lemma_mod_multiples_basic, lemma_small_mod,
};
use vstd::arithmetic::mul::{
    lemma_mul_is_associative, lemma_mul_is_commutative, lemma_mul_is_distributive_sub,
    lemma_mul_strictly_positive,
};
use vstd::arithmetic::div_mod::{
    lemma_div_denominator, lemma_div_is_ordered, lemma_div_is_ordered_by_denominator,
    lemma_div_pos_is_pos,
};

verus! {

/// A calendar date. Valid dates (see [`Date::valid`]) range from year 1 to
/// year 9999 inclusive.
#[derive(Clone, Copy, PartialEq, Eq, Structural, Debug, Hash)]
pub struct Date {
    pub year: u32,
    pub month: u8,
    pub day: u8,
}

/// A year divisible by 4 is a leap year, unless it is divisible by 100 and
/// not by 400.
pub open spec fn spec_is_leap_year(y: int) -> bool {
    (y % 4 == 0 && y % 100 != 0) || y % 400 == 0
}

pub open spec fn spec_days_in_year(y: int) -> int {
    if spec_is_leap_year(y) { 366 } else { 365 }
}

pub open spec fn spec_days_in_month(y: int, m: int) -> int {
    if m == 2 {
        if spec_is_leap_year(y) { 29 } else { 28 }
    } else if m == 4 || m == 6 || m == 9 || m == 11 {
        30
    } else {
        31
    }
}

/// Days in the months of year `y` that come strictly before month `m`.
pub open spec fn spec_days_before_month(y: int, m: int) -> int
    decreases m,
{
    if m <= 1 {
        0
    } else {
        spec_days_before_month(y, m - 1) + spec_days_in_month(y, m - 1)
    }
}

/// One-based ordinal of a date within its year: January 1 is day 1.
pub open spec fn spec_day_of_year(d: Date) -> int {
    spec_days_before_month(d.year as int, d.month as int) + d.day
}

/// Number of leap years in `1..=y`.
pub open spec fn spec_leap_count(y: int) -> int {
    y / 4 - y / 100 + y / 400
}

/// Zero-based count of days since January 1 of year 1.
pub open spec fn spec_day_number(d: Date) -> int {
    365 * (d.year - 1) + spec_leap_count(d.year - 1) + spec_day_of_year(d) - 1
}

/// Weekday of a date, 0 = Monday .. 6 = Sunday.
pub open spec fn spec_weekday(d: Date) -> int {
    spec_day_number(d) % 7
}

/// The calendar day after `d`.
pub open spec fn spec_next_date(d: Date) -> Date {
    if d.day < spec_days_in_month(d.year as int, d.month as int) {
        Date { year: d.year, month: d.month, day: (d.day + 1) as u8 }
    } else if d.month < 12 {
        Date { year: d.year, month: (d.month + 1) as u8, day: 1 }
    } else {
        Date { year: (d.year + 1) as u32, month: 1, day: 1 }
    }
}

impl Date {
    /// A date is valid when the year is in 1..=9999, the month in 1..=12 and
    /// the day within the month's length for that year.
    pub open spec fn valid(self) -> bool {
        1 <= self.year <= 9999 && 1 <= self.month <= 12 && 1 <= self.day
            <= spec_days_in_month(self.year as int, self.month as int)
    }

    /// Builds a date after checking validity: returns `Some` exactly on
    /// valid year/month/day triples.
    pub fn new(year: u32, month: u8, day: u8) -> (r: Option<Date>)
        ensures
            match r {
                Some(d) => d == (Date { year, month, day }) && d.valid(),
                None => !(Date { year, month, day }).valid(),
            },
    {
        if 1 <= year && year <= 9999 && 1 <= month && month <= 12 && 1 <= day && day
            <= days_in_month(year, month) {
            Some(Date { year, month, day })
        } else {
            None
        }
    }
}

pub fn is_leap_year(y: u32) -> (r: bool)
    ensures
        r == spec_is_leap_year(y as int),
{
    (y % 4 == 0 && y % 100 != 0) || y % 400 == 0
}

pub fn days_in_year(y: u32) -> (r: u16)
    ensures
        r as int == spec_days_in_year(y as int),
{
    if is_leap_year(y) { 366 } else { 365 }
}

pub fn days_in_month(y: u32, m: u8) -> (r: u8)
    requires
        1 <= m <= 12,
    ensures
        r as int == spec_days_in_month(y as int, m as int),
{
    if m == 2 {
        if is_leap_year(y) { 29 } else { 28 }
    } else if m == 4 || m == 6 || m == 9 || m == 11 {
        30
    } else {
        31
    }
}

pub fn days_before_month(y: u32, m: u8) -> (r: u16)
    requires
        1 <= m <= 12,
    ensures
        r as int == spec_days_before_month(y as int, m as int),
        r <= 341,
{
    let mut acc: u16 = 0;
    let mut i: u8 = 1;
    while i < m
        invariant
            1 <= i <= m <= 12,
            acc as int == spec_days_before_month(y as int, i as int),
            acc <= 31 * (i - 1),
        decreases m - i,
    {
        acc = acc + days_in_month(y, i) as u16;
        i = i + 1;
    }
    acc
}

pub fn day_of_year(d: Date) -> (r: u16)
    requires
        d.valid(),
    ensures
        r as int == spec_day_of_year(d),
        1 <= r <= 372,
{
    days_before_month(d.year, d.month) + d.day as u16
}

pub fn day_number(d: Date) -> (n: u32)
    requires
        d.valid(),
    ensures
        n as int == spec_day_number(d),
{
    let y: u32 = d.year - 1;
    let a: u32 = y / 4;
    let b: u32 = y / 100;
    let c: u32 = y / 400;
    proof {
        lemma_div_is_ordered_by_denominator(y as int, 4, 100);
        lemma_div_is_ordered(y as int, 9998, 4);
        lemma_div_is_ordered(y as int, 9998, 400);
    }
    let leaps: u32 = a - b + c;
    365 * y + leaps + day_of_year(d) as u32 - 1
}

pub fn weekday(d: Date) -> (w: u8)
    requires
        d.valid(),
    ensures
        w as int == spec_weekday(d),
        w < 7,
{
    (day_number(d) % 7) as u8
}

/// The character a byte denotes in ASCII.
pub open spec fn spec_char_of_byte(b: u8) -> char {
    b as char
}

/// The character of a decimal digit value.
pub open spec fn spec_digit_char(v: int) -> char {
    spec_char_of_byte((48 + v) as u8)
}

/// The ten characters `YYYY-MM-DD` of a date, zero-padded.
pub open spec fn spec_format_date(d: Date) -> Seq<char> {
    seq![
        spec_digit_char(d.year as int / 1000),
        spec_digit_char((d.year as int / 100) % 10),
        spec_digit_char((d.year as int / 10) % 10),
        spec_digit_char(d.year as int % 10),
        '-',
        spec_digit_char(d.month as int / 10),
        spec_digit_char(d.month as int % 10),
        '-',
        spec_digit_char(d.day as int / 10),
        spec_digit_char(d.day as int % 10),
    ]
}

/// Relies on `String::from_utf8`: bytes below 128 are one-byte UTF-8
/// sequences, so they decode to exactly those characters.
#[verifier::external_body]
pub(crate) fn string_from_ascii(bytes: Vec<u8>) -> (r: String)
    requires
        forall|i: int| 0 <= i < bytes@.len() ==> bytes@[i] < 128,
    ensures
        r@ == bytes@.map_values(|b: u8| b as char),
{
    String::from_utf8(bytes).unwrap_or_default()
}

/// Writes a date as `YYYY-MM-DD`, zero-padded.
pub fn format_date(d: Date) -> (r: String)
    requires
        d.valid(),
    ensures
        r@ == spec_format_date(d),
{
    let y = d.year;
    let mut bytes: Vec<u8> = Vec::new();
    bytes.push(48 + (y / 1000) as u8);
    bytes.push(48 + ((y / 100) % 10) as u8);
    bytes.push(48 + ((y / 10) % 10) as u8);
    bytes.push(48 + (y % 10) as u8);
    bytes.push(45);
    bytes.push(48 + d.month / 10);
    bytes.push(48 + d.month % 10);
    bytes.push(45);
    bytes.push(48 + d.day / 10);
    bytes.push(48 + d.day % 10);
    proof {
        lemma_div_is_ordered(y as int, 9999, 1000);
    }
    let r = string_from_ascii(bytes);
    proof {
        assert(r@ =~= spec_format_date(d));
    }
    r
}

/// Whether `c` is a decimal digit.
pub open spec fn spec_is_digit(c: char) -> bool {
    48 <= c as int <= 57
}

/// Value of a decimal digit character.
pub open spec fn spec_digit_val(c: char) -> int {
    c as int - 48
}

/// What parsing a `YYYY-MM-DD` string yields: the valid date it denotes,
/// or nothing when the shape or the ranges are wrong.
pub open spec fn spec_parse_date(s: Seq<char>) -> Option<Date> {
    if s.len() == 10 && s[4] == '-' && s[7] == '-' && spec_is_digit(s[0]) && spec_is_digit(s[1])
        && spec_is_digit(s[2]) && spec_is_digit(s[3]) && spec_is_digit(s[5]) && spec_is_digit(s[6])
        && spec_is_digit(s[8]) && spec_is_digit(s[9]) {
        let y = 1000 * spec_digit_val(s[0]) + 100 * spec_digit_val(s[1]) + 10 * spec_digit_val(
            s[2],
        ) + spec_digit_val(s[3]);
        let mo = 10 * spec_digit_val(s[5]) + spec_digit_val(s[6]);
        let da = 10 * spec_digit_val(s[8]) + spec_digit_val(s[9]);
        let d = Date { year: y as u32, month: mo as u8, day: da as u8 };
        if d.valid() {
            Some(d)
        } else {
            None
        }
    } else {
        None
    }
}

fn digit_at(s: &str, i: usize) -> (r: Option<u8>)
    requires
        i < s@.len(),
    ensures
        r is Some <==> spec_is_digit(s@[i as int]),
        r matches Some(v) ==> v as int == spec_digit_val(s@[i as int]) && v <= 9,
{
    let c = s.get_char(i) as u32;
    if 48 <= c && c <= 57 {
        Some((c - 48) as u8)
    } else {
        None
    }
}

/// Reads a date from a `YYYY-MM-DD` string: exactly the strings of that
/// shape that denote a valid date parse successfully.
pub fn parse_date(s: &str) -> (r: Option<Date>)
    ensures
        r == spec_parse_date(s@),
{
    if s.unicode_len() != 10 {
        return None;
    }
    if !(s.get_char(4) == '-' && s.get_char(7) == '-') {
        return None;
    }
    let d0 = digit_at(s, 0);
    let d1 = digit_at(s, 1);
    let d2 = digit_at(s, 2);
    let d3 = digit_at(s, 3);
    let d5 = digit_at(s, 5);
    let d6 = digit_at(s, 6);
    let d8 = digit_at(s, 8);
    let d9 = digit_at(s, 9);
    match (d0, d1, d2, d3, d5, d6, d8, d9) {
        (Some(a), Some(b), Some(c), Some(d), Some(e), Some(f), Some(g), Some(h)) => {
            let y: u32 = 1000 * a as u32 + 100 * b as u32 + 10 * c as u32 + d as u32;
            let mo: u8 = 10 * e + f;
            let da: u8 = 10 * g + h;
            Date::new(y, mo, da)
        },
        _ => None,
    }
}

/// Formatting a valid date and parsing the text back yields the same
/// date: the two directions of the `YYYY-MM-DD` encoding agree.
pub proof fn lemma_parse_format_round_trip(d: Date)
    requires
        d.valid(),
    ensures
        spec_parse_date(spec_format_date(d)) == Some(d),
{
    let y = d.year as int;
    let mo = d.month as int;
    let da = d.day as int;
    lemma_div_is_ordered(y, 9999, 1000);
    lemma_div_pos_is_pos(y, 10);
    lemma_div_pos_is_pos(y, 100);
    lemma_div_pos_is_pos(y, 1000);
    lemma_mod_bound(y, 10);
    lemma_mod_bound(y / 10, 10);
    lemma_mod_bound(y / 100, 10);
    lemma_mod_bound(mo, 10);
    lemma_mod_bound(da, 10);
    lemma_div_is_ordered(mo, 12, 10);
    lemma_div_is_ordered(da, 31, 10);
    lemma_div_pos_is_pos(mo, 10);
    lemma_div_pos_is_pos(da, 10);
    lemma_fundamental_div_mod(y, 10);
    lemma_fundamental_div_mod(y / 10, 10);
    lemma_fundamental_div_mod(y / 100, 10);
    lemma_div_denominator(y, 10, 10);
    lemma_div_denominator(y, 100, 10);
    lemma_fundamental_div_mod(mo, 10);
    lemma_fundamental_div_mod(da, 10);
}

/// Relies on chrono's `Local::now` and `Datelike`: the local calendar
/// date right now. chrono documents `month` in 1..=12 and `day` in
/// 1..=31; nothing more can be said of a clock reading. `Local::now`
/// itself panics when the system clock predates the Unix epoch — an
/// environmental condition no `requires` can exclude.
#[verifier::external_body]
fn now_ymd() -> (r: (i32, u32, u32))
    ensures
        1 <= r.1 <= 12,
        1 <= r.2 <= 31,
{
    let now = chrono::Local::now().date_naive();
    (chrono::Datelike::year(&now), chrono::Datelike::month(&now), chrono::Datelike::day(&now))
}

/// The current local date, if it falls in the representable year range
/// and is a valid calendar date; a clock cannot be trusted further.
pub fn today() -> (r: Option<Date>)
    ensures
        r matches Some(d) ==> d.valid(),
{
    let (y, mo, da) = now_ymd();
    if y < 1 || y > 9999 {
        return None;
    }
    Date::new(y as u32, mo as u8, da as u8)
}

/// Quotient by a positive divisor steps up exactly at the multiples.
proof fn lemma_div_step(y: int, k: int)
    requires
        1 <= y,
        2 <= k,
    ensures
        y / k - (y - 1) / k == if y % k == 0 { 1int } else { 0int },
{
    let q = y / k;
    let r = y % k;
    lemma_fundamental_div_mod(y, k);
    lemma_mod_bound(y, k);
    if r == 0 {
        assert(k * (q - 1) == k * q - k * 1) by {
            lemma_mul_is_distributive_sub(k, q, 1);
        };
        lemma_fundamental_div_mod_converse(y - 1, k, q - 1, k - 1);
    } else {
        lemma_fundamental_div_mod_converse(y - 1, k, q, r - 1);
    }
}

/// If `y` is a multiple of `a * b`, it is a multiple of `a`.
proof fn lemma_mod_multiple_implies(y: int, a: int, b: int)
    requires
        1 <= a,
        1 <= b,
        y % (a * b) == 0,
    ensures
        y % a == 0,
{
    let q = y / (a * b);
    lemma_mul_strictly_positive(a, b);
    lemma_fundamental_div_mod(y, a * b);
    assert(y == (a * b) * q);
    assert((a * b) * q == (b * q) * a) by {
        lemma_mul_is_associative(a, b, q);
        lemma_mul_is_commutative(a, b * q);
    };
    lemma_mod_multiples_basic(b * q, a);
}

/// The leap-year count gains exactly one at each leap year.
proof fn lemma_leap_count_step(y: int)
    requires
        1 <= y,
    ensures
        spec_leap_count(y) == spec_leap_count(y - 1) + if spec_is_leap_year(y) {
            1int
        } else {
            0int
        },
{
    lemma_div_step(y, 4);
    lemma_div_step(y, 100);
    lemma_div_step(y, 400);
    if y % 400 == 0 {
        lemma_mod_multiple_implies(y, 4, 100);
        lemma_mod_multiple_implies(y, 100, 4);
    } else if y % 100 == 0 {
        lemma_mod_multiple_implies(y, 4, 25);
    }
}

/// December 31 is the last ordinal day of its year.
pub proof fn lemma_dec31(y: int)
    ensures
        spec_days_before_month(y, 12) + 31 == spec_days_in_year(y),
{
    assert(spec_days_before_month(y, 1) == 0);
    assert(spec_days_before_month(y, 2) == 31);
    assert(spec_days_before_month(y, 3) == spec_days_before_month(y, 2) + spec_days_in_month(y, 2));
    assert(spec_days_before_month(y, 4) == spec_days_before_month(y, 3) + 31);
    assert(spec_days_before_month(y, 5) == spec_days_before_month(y, 4) + 30);
    assert(spec_days_before_month(y, 6) == spec_days_before_month(y, 5) + 31);
    assert(spec_days_before_month(y, 7) == spec_days_before_month(y, 6) + 30);
    assert(spec_days_before_month(y, 8) == spec_days_before_month(y, 7) + 31);
    assert(spec_days_before_month(y, 9) == spec_days_before_month(y, 8) + 31);
    assert(spec_days_before_month(y, 10) == spec_days_before_month(y, 9) + 30);
    assert(spec_days_before_month(y, 11) == spec_days_before_month(y, 10) + 31);
    assert(spec_days_before_month(y, 12) == spec_days_before_month(y, 11) + 30);
}

/// Taking the next date adds exactly one to the day number and keeps the
/// date valid.
pub proof fn lemma_day_number_next(d: Date)
    requires
        d.valid(),
        !(d.year == 9999 && d.month == 12 && d.day == 31),
    ensures
        spec_next_date(d).valid(),
        spec_day_number(spec_next_date(d)) == spec_day_number(d) + 1,
{
    let y = d.year as int;
    let m = d.month as int;
    if (d.day as int) < spec_days_in_month(y, m) {
        // same month
    } else if d.month < 12 {
        assert(spec_days_before_month(y, m + 1) == spec_days_before_month(y, m)
            + spec_days_in_month(y, m));
    } else {
        lemma_dec31(y);
        lemma_leap_count_step(y);
    }
}

/// Taking the next date advances the weekday cyclically.
pub proof fn lemma_weekday_next(d: Date)
    requires
        d.valid(),
        !(d.year == 9999 && d.month == 12 && d.day == 31),
    ensures
        spec_next_date(d).valid(),
        spec_weekday(spec_next_date(d)) == (spec_weekday(d) + 1) % 7,
{
    lemma_day_number_next(d);
    let n = spec_day_number(d);
    lemma_add_mod_noop(n, 1, 7);
    assert(1int % 7 == 1);
    assert((n % 7 + 1) % 7 == (n + 1) % 7);
}

/// The `i`-th day of year `y`, counting January 1 as day 0.
pub open spec fn spec_date_of_index(y: u32, i: int) -> Date
    decreases i,
{
    if i <= 0 {
        Date { year: y, month: 1, day: 1 }
    } else {
        spec_next_date(spec_date_of_index(y, i - 1))
    }
}

/// The `i`-th day of year `y` is valid, lies in year `y`, has ordinal
/// `i + 1`, and sits `i` days (and so `i` weekday steps) after January 1.
pub proof fn lemma_date_of_index(y: u32, i: int)
    requires
        1 <= y <= 9999,
        0 <= i < spec_days_in_year(y as int),
    ensures
        ({
            let jan1 = Date { year: y, month: 1, day: 1 };
            let d = spec_date_of_index(y, i);
            &&& d.valid()
            &&& d.year == y
            &&& spec_day_of_year(d) == i + 1
            &&& spec_day_number(d) == spec_day_number(jan1) + i
            &&& spec_weekday(d) == (spec_weekday(jan1) + i) % 7
        }),
    decreases i,
{
    let jan1 = Date { year: y, month: 1, day: 1 };
    let wd0 = spec_weekday(jan1);
    if i == 0 {
        assert(spec_days_before_month(y as int, 1) == 0);
        lemma_mod_bound(spec_day_number(jan1), 7);
        lemma_small_mod(wd0 as nat, 7);
    } else {
        lemma_date_of_index(y, i - 1);
        let p = spec_date_of_index(y, i - 1);
        if p.month == 12 && p.day == 31 {
            lemma_dec31(y as int);
            assert(false);
        }
        lemma_day_number_next(p);
        lemma_weekday_next(p);
        lemma_add_mod_noop(wd0 + i - 1, 1, 7);
        assert(1int % 7 == 1);
    }
}

pub fn next_date(d: Date) -> (n: Date)
    requires
        d.valid(),
        !(d.year == 9999 && d.month == 12 && d.day == 31),
    ensures
        n == spec_next_date(d),
        n.valid(),
        spec_day_number(n) == spec_day_number(d) + 1,
        spec_weekday(n) == (spec_weekday(d) + 1) % 7,
{
    proof {
        lemma_day_number_next(d);
        lemma_weekday_next(d);
    }
    if d.day < days_in_month(d.year, d.month) {
        Date { year: d.year, month: d.month, day: d.day + 1 }
    } else if d.month < 12 {
        Date { year: d.year, month: d.month + 1, day: 1 }
    } else {
        Date { year: d.year + 1, month: 1, day: 1 }
    }
}

} // verus!
