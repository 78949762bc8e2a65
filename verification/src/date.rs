//! Calendar dates for the recurrence engine: parsing `YYYY-MM-DD` strings,
//! a day-number model of the Gregorian calendar, and the Monday-based
//! same-week test the weekly cycle is defined by.

use vstd::prelude::*;
use crate::digits::{is_digit, digit_val, digit, digit_val_of};

verus! {

/// A calendar date. Years run from 0 through 9999.
#[derive(Clone, Copy, PartialEq, Eq, Structural, Debug)]
pub struct Date {
    pub y: u32,
    pub m: u32,
    pub d: u32,
}

/// A Gregorian leap year.
pub open spec fn leap_year(y: int) -> bool {
    (y % 4 == 0 && y % 100 != 0) || y % 400 == 0
}

/// The number of days in a month.
pub open spec fn days_in_month(y: int, m: int) -> int {
    if m == 2 {
        if leap_year(y) {
            29
        } else {
            28
        }
    } else if m == 4 || m == 6 || m == 9 || m == 11 {
        30
    } else {
        31
    }
}

/// A representable calendar date.
pub open spec fn valid_date(dt: Date) -> bool {
    0 <= dt.y <= 9999 && 1 <= dt.m <= 12 && 1 <= dt.d <= days_in_month(dt.y as int, dt.m as int)
}

/// The position of the first dash at or after `i`.
pub open spec fn find_dash(s: Seq<char>, i: int) -> Option<int>
    decreases s.len() - i,
{
    if i < 0 || i >= s.len() {
        None
    } else if s[i] == '-' {
        Some(i)
    } else {
        find_dash(s, i + 1)
    }
}

/// Scans the digits of `s` in `[lo, hi)`, accumulating their value; fails on
/// a non-digit or a value past 9999.
pub open spec fn sp_scan_part(s: Seq<char>, lo: int, hi: int, acc: int) -> Option<int>
    decreases hi - lo,
{
    if lo >= hi {
        Some(acc)
    } else if !(0 <= lo < s.len() && is_digit(s[lo])) {
        None
    } else if acc * 10 + digit_val(s[lo]) > 9999 {
        None
    } else {
        sp_scan_part(s, lo + 1, hi, acc * 10 + digit_val(s[lo]))
    }
}

/// Reads a date string: three nonempty dash-separated digit groups whose
/// values form a representable calendar date.
pub open spec fn sp_parse_date(s: Seq<char>) -> Option<Date> {
    match find_dash(s, 0) {
        None => None,
        Some(i) => match find_dash(s, i + 1) {
            None => None,
            Some(j) => if find_dash(s, j + 1) is Some {
                None
            } else if !(0 < i && i + 1 < j && j + 1 < s.len()) {
                None
            } else {
                match (
                    sp_scan_part(s, 0, i, 0),
                    sp_scan_part(s, i + 1, j, 0),
                    sp_scan_part(s, j + 1, s.len() as int, 0),
                ) {
                    (Some(y), Some(m), Some(d)) => if 1 <= m <= 12 && 1 <= d <= days_in_month(
                        y,
                        m,
                    ) {
                        Some(Date { y: y as u32, m: m as u32, d: d as u32 })
                    } else {
                        None
                    },
                    _ => None,
                }
            },
        },
    }
}

/// Finds the first dash at or after `i`.
fn find_dash_at(s: &str, i: usize) -> (r: Option<usize>)
    requires
        i <= s@.len(),
    ensures
        r matches Some(j) ==> find_dash(s@, i as int) == Some(j as int) && i <= j < s@.len(),
        r is None ==> find_dash(s@, i as int) is None,
    decreases s@.len() - i,
{
    let n = s.unicode_len();
    if i >= n {
        return None;
    }
    if s.get_char(i) == '-' {
        return Some(i);
    }
    find_dash_at(s, i + 1)
}

/// Scans one digit group.
fn scan_part(s: &str, lo: usize, hi: usize, acc: u32) -> (r: Option<u32>)
    requires
        hi <= s@.len(),
        acc <= 9999,
    ensures
        r matches Some(v) ==> sp_scan_part(s@, lo as int, hi as int, acc as int) == Some(
            v as int,
        ) && v <= 9999,
        r is None ==> sp_scan_part(s@, lo as int, hi as int, acc as int) is None,
    decreases hi - lo,
{
    if lo >= hi {
        return Some(acc);
    }
    let c = s.get_char(lo);
    if !digit(c) {
        return None;
    }
    let d = digit_val_of(c);
    let a2: u32 = acc * 10 + (d as u32);
    if a2 > 9999 {
        return None;
    }
    scan_part(s, lo + 1, hi, a2)
}

/// Reads a date string; malformed or out-of-range input yields nothing.
pub fn parse_date(s: &str) -> (r: Option<Date>)
    ensures
        r == sp_parse_date(s@),
        r matches Some(dt) ==> valid_date(dt),
{
    let n = s.unicode_len();
    let Some(i) = find_dash_at(s, 0) else { return None };
    let Some(j) = find_dash_at(s, i + 1) else { return None };
    if find_dash_at(s, j + 1).is_some() {
        return None;
    }
    if !(0 < i && i + 1 < j && j + 1 < n) {
        return None;
    }
    let Some(y) = scan_part(s, 0, i, 0) else { return None };
    let Some(m) = scan_part(s, i + 1, j, 0) else { return None };
    let Some(d) = scan_part(s, j + 1, n, 0) else { return None };
    if !(1 <= m && m <= 12) {
        return None;
    }
    if !(1 <= d && d <= days_in_month_of(y, m)) {
        return None;
    }
    Some(Date { y, m, d })
}

/// The number of days in a month.
pub fn days_in_month_of(y: u32, m: u32) -> (r: u32)
    ensures
        r == days_in_month(y as int, m as int),
{
    if m == 2 {
        if (y % 4 == 0 && y % 100 != 0) || y % 400 == 0 {
            29
        } else {
            28
        }
    } else if m == 4 || m == 6 || m == 9 || m == 11 {
        30
    } else {
        31
    }
}

/// The date's position in a linear count of days, shifted so that every
/// representable date is positive; equal gaps mean equal day differences.
pub open spec fn day_number(dt: Date) -> int {
    let ys = dt.y + 400;
    let y2 = if dt.m <= 2 {
        ys - 1
    } else {
        ys as int
    };
    let era = y2 / 400;
    let yoe = y2 % 400;
    let mp = (dt.m + 9) % 12;
    let doy = (153 * mp + 2) / 5 + dt.d - 1;
    let doe = yoe * 365 + yoe / 4 - yoe / 100 + doy;
    era * 146097 + doe
}

/// The day number, computed.
pub fn day_num(dt: Date) -> (r: u32)
    requires
        valid_date(dt),
    ensures
        r == day_number(dt),
{
    let ys: u32 = dt.y + 400;
    let y2: u32 = if dt.m <= 2 {
        ys - 1
    } else {
        ys
    };
    let era: u32 = y2 / 400;
    let yoe: u32 = y2 % 400;
    let mp: u32 = (dt.m + 9) % 12;
    let doy: u32 = (153 * mp + 2) / 5 + dt.d - 1;
    let doe: u32 = yoe * 365 + yoe / 4 - yoe / 100 + doy;
    era * 146097 + doe
}

/// The day number of the Monday opening the date's week.
pub open spec fn monday_of(dt: Date) -> int {
    day_number(dt) - ((day_number(dt) + 2) % 7)
}

/// Two dates fall in the same week, weeks starting on Monday.
pub open spec fn sp_same_week(a: Date, b: Date) -> bool {
    monday_of(a) == monday_of(b)
}

/// Whether two dates fall in the same Monday-started week.
pub fn same_week(a: Date, b: Date) -> (r: bool)
    requires
        valid_date(a),
        valid_date(b),
    ensures
        r == sp_same_week(a, b),
{
    let da = day_num(a);
    let wa = (da + 2) % 7;
    let db = day_num(b);
    let wb = (db + 2) % 7;
    da + wb == db + wa
}

} // verus!
