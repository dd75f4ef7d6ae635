//! Calendar dates.
//!
//! Every surface reports dates as text: the history report uses a
//! slash-delimited local-era form whose year is the Gregorian year less 1911,
//! the realtime snapshot a compact eight-digit form, and the issuer directory
//! a slash-delimited Gregorian form. All three readings land in one `Date`
//! type, valid by the proleptic Gregorian calendar.

use vstd::prelude::*;

use crate::text::all_digits;
use crate::text::all_digits_exec;
use crate::text::digits_val;
use crate::text::first_idx;
use crate::text::find_char;
use crate::text::lemma_digits_val_bound;
use crate::text::lemma_digits_val_nonneg;
use crate::text::lemma_pow10_values;
use crate::text::parse_u64_chars;
use crate::text::parse_u64_str;
use crate::text::sub_chars;

verus! {

/// A calendar date; `wf` says it exists in the proleptic Gregorian calendar.
#[derive(Debug, Hash, Clone, Copy, PartialEq, Eq, Structural)]
pub struct Date {
    pub year: u16,
    pub month: u8,
    pub day: u8,
}

pub open spec fn is_leap_year(y: int) -> bool {
    y % 4 == 0 && (y % 100 != 0 || y % 400 == 0)
}

pub open spec fn days_in_month(y: int, m: int) -> int {
    if m == 2 {
        if is_leap_year(y) {
            29
        } else {
            28
        }
    } else if m == 4 || m == 6 || m == 9 || m == 11 {
        30
    } else {
        31
    }
}

pub open spec fn valid_date(y: int, m: int, d: int) -> bool {
    1 <= m <= 12 && 1 <= d <= days_in_month(y, m)
}

impl Date {
    pub open spec fn wf(self) -> bool {
        valid_date(self.year as int, self.month as int, self.day as int)
    }
}

pub fn days_in_month_exec(y: u16, m: u8) -> (r: u8)
    ensures
        r == days_in_month(y as int, m as int),
{
    if m == 2 {
        if y % 4 == 0 && (y % 100 != 0 || y % 400 == 0) {
            29
        } else {
            28
        }
    } else if m == 4 || m == 6 || m == 9 || m == 11 {
        30
    } else {
        31
    }
}

/// The date `(y, m, d)` when it exists in the calendar.
pub fn make_date(y: u16, m: u8, d: u8) -> (r: Option<Date>)
    ensures
        r == (if valid_date(y as int, m as int, d as int) {
            Some(Date { year: y, month: m, day: d })
        } else {
            None::<Date>
        }),
{
    if m < 1 || m > 12 {
        return None;
    }
    let dim = days_in_month_exec(y, m);
    if d < 1 || d > dim {
        return None;
    }
    Some(Date { year: y, month: m, day: d })
}

/// Three fields split on exactly two slashes.
pub open spec fn split3_slash(s: Seq<char>) -> Option<(Seq<char>, Seq<char>, Seq<char>)> {
    match first_idx(s, '/') {
        None => None,
        Some(i) => {
            let rest = s.skip(i + 1);
            match first_idx(rest, '/') {
                None => None,
                Some(j) => {
                    let p2 = rest.skip(j + 1);
                    if first_idx(p2, '/') is None {
                        Some((s.take(i), rest.take(j), p2))
                    } else {
                        None
                    }
                },
            }
        },
    }
}

/// Year, month and day read from three numeric fields, the year lifted by
/// `offset`; the result must exist in the calendar and fit the date type.
pub open spec fn date_from_parts(
    p0: Seq<char>,
    p1: Seq<char>,
    p2: Seq<char>,
    offset: int,
) -> Option<Date> {
    match (parse_u64_str(p0), parse_u64_str(p1), parse_u64_str(p2)) {
        (Some(a), Some(b), Some(c)) => {
            if a <= u32::MAX && b <= u32::MAX && c <= u32::MAX && a + offset <= u16::MAX
                && valid_date(a + offset, b as int, c as int) {
                Some(Date { year: (a + offset) as u16, month: b as u8, day: c as u8 })
            } else {
                None
            }
        },
        _ => None,
    }
}

pub fn date_from_parts_exec(p0: &Vec<char>, p1: &Vec<char>, p2: &Vec<char>, offset: u16) -> (r:
    Option<Date>)
    ensures
        r == date_from_parts(p0@, p1@, p2@, offset as int),
{
    let a = match parse_u64_chars(p0) {
        Some(x) => x,
        None => {
            return None;
        },
    };
    let b = match parse_u64_chars(p1) {
        Some(x) => x,
        None => {
            return None;
        },
    };
    let c = match parse_u64_chars(p2) {
        Some(x) => x,
        None => {
            return None;
        },
    };
    if a > u32::MAX as u64 || b > u32::MAX as u64 || c > u32::MAX as u64 {
        return None;
    }
    let y = a + offset as u64;
    if y > u16::MAX as u64 {
        return None;
    }
    if b < 1 || b > 12 {
        return None;
    }
    let dim = days_in_month_exec(y as u16, b as u8);
    if c < 1 || c > dim as u64 {
        return None;
    }
    Some(Date { year: y as u16, month: b as u8, day: c as u8 })
}

/// A slash-delimited date, year offset by `offset` (1911 for the local era,
/// zero for the Gregorian form).
pub open spec fn parse_slash_date(s: Seq<char>, offset: int) -> Option<Date> {
    match split3_slash(s) {
        Some((p0, p1, p2)) => date_from_parts(p0, p1, p2, offset),
        None => None,
    }
}

pub fn parse_slash_date_exec(v: &Vec<char>, offset: u16) -> (r: Option<Date>)
    ensures
        r == parse_slash_date(v@, offset as int),
{
    let n = v.len();
    let i = match find_char(v, '/') {
        Some(i) => i,
        None => {
            return None;
        },
    };
    let rest = sub_chars(v, i + 1, n);
    proof {
        assert(rest@ =~= v@.skip(i + 1));
    }
    let j = match find_char(&rest, '/') {
        Some(j) => j,
        None => {
            return None;
        },
    };
    let p0 = sub_chars(v, 0, i);
    let p1 = sub_chars(&rest, 0, j);
    let p2 = sub_chars(&rest, j + 1, rest.len());
    proof {
        assert(p0@ =~= v@.take(i as int));
        assert(p1@ =~= rest@.take(j as int));
        assert(p2@ =~= rest@.skip(j + 1));
    }
    match find_char(&p2, '/') {
        Some(_) => None,
        None => date_from_parts_exec(&p0, &p1, &p2, offset),
    }
}

/// The compact eight-digit date form: four year digits, two month digits,
/// two day digits.
pub open spec fn parse_compact_date(s: Seq<char>) -> Option<Date> {
    if s.len() == 8 && all_digits(s) {
        let y = digits_val(s.subrange(0, 4));
        let m = digits_val(s.subrange(4, 6));
        let d = digits_val(s.subrange(6, 8));
        if valid_date(y, m, d) {
            Some(Date { year: y as u16, month: m as u8, day: d as u8 })
        } else {
            None
        }
    } else {
        None
    }
}

pub fn parse_compact_date_exec(v: &Vec<char>) -> (r: Option<Date>)
    ensures
        r == parse_compact_date(v@),
{
    if v.len() != 8 {
        return None;
    }
    if !all_digits_exec(v) {
        return None;
    }
    let py = sub_chars(v, 0, 4);
    let pm = sub_chars(v, 4, 6);
    let pd = sub_chars(v, 6, 8);
    proof {
        assert(all_digits(py@));
        assert(all_digits(pm@));
        assert(all_digits(pd@));
        lemma_digits_val_bound(py@);
        lemma_digits_val_bound(pm@);
        lemma_digits_val_bound(pd@);
        lemma_digits_val_nonneg(py@);
        lemma_digits_val_nonneg(pm@);
        lemma_digits_val_nonneg(pd@);
        lemma_pow10_values();
    }
    let y = match parse_u64_chars(&py) {
        Some(x) => x,
        None => {
            assert(false);
            return None;
        },
    };
    let m = match parse_u64_chars(&pm) {
        Some(x) => x,
        None => {
            assert(false);
            return None;
        },
    };
    let d = match parse_u64_chars(&pd) {
        Some(x) => x,
        None => {
            assert(false);
            return None;
        },
    };
    if m < 1 || m > 12 {
        return None;
    }
    let dim = days_in_month_exec(y as u16, m as u8);
    if d < 1 || d > dim as u64 {
        return None;
    }
    Some(Date { year: y as u16, month: m as u8, day: d as u8 })
}

} // verus!
