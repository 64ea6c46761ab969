//! Moments in time, in microseconds since the first of January 1970: the days
//! and hours they fall into.

use crate::date::{day_number, days_before_month, is_leap, iso_text, opt_day, shifted, Date, Day};
use crate::text::{cat5, padded, show_padded};
use crate::tile::{day_text, show_day};
use vstd::arithmetic::div_mod::{lemma_fundamental_div_mod, lemma_fundamental_div_mod_converse};
use vstd::prelude::*;

verus! {

/// The microseconds of a day.
pub open spec fn day_length() -> int {
    86_400_000_000
}

/// The day that moments are counted from.
pub open spec fn epoch() -> Day {
    (1970int, 1int, 1int)
}

/// The moment at which a day begins.
pub open spec fn midnight(d: Day) -> int {
    (day_number(d) - day_number(epoch())) * day_length()
}

/// The hour of the day, that many minutes east of Greenwich.
pub open spec fn hour_of(at: int, offset_minutes: int) -> int {
    ((at + offset_minutes * 60_000_000) % day_length()) / 3_600_000_000
}

/// The day that a moment falls into, in Greenwich; `None` for one that no calendar
/// has.
#[verifier::opaque]
pub open spec fn day_of(at: int) -> Option<Day> {
    shifted(epoch(), at / day_length())
}

/// `2026-07-15 09:30`, in Greenwich; `None` for a day that no calendar has.
pub open spec fn stamp_text(at: int) -> Option<Seq<char>> {
    match day_of(at) {
        Some(d) => Some(
            iso_text(d) + " "@ + padded(hour_of(at, 0) as nat, 2) + ":"@ + padded(
                ((at % day_length()) / 60_000_000 % 60) as nat,
                2,
            ),
        ),
        None => None,
    }
}

/// The number of a moment's day, counted from 1970, and the time within it.
fn split(at: i128) -> (r: (i128, i128))
    requires
        -0x1_0000_0000_0000_0000 <= at <= 0x1_0000_0000_0000_0000,
    ensures
        r.0 == at as int / day_length(),
        r.1 == at as int % day_length(),
        0 <= r.1 < day_length(),
        -0x1_0000_0000_0000_0000 <= r.0 <= 0x1_0000_0000_0000_0000,
{
    let d: i128 = 86_400_000_000;
    if at >= 0 {
        (at / d, at % d)
    } else {
        let up: i128 = -at;
        let q: i128 = up / d;
        let m: i128 = up % d;
        proof {
            lemma_fundamental_div_mod(up as int, d as int);
            if m == 0 {
                lemma_fundamental_div_mod_converse(at as int, d as int, -(q as int), 0);
            } else {
                lemma_fundamental_div_mod_converse(
                    at as int,
                    d as int,
                    -(q as int) - 1,
                    d as int - m as int,
                );
            }
        }
        if m == 0 {
            (-q, 0)
        } else {
            (-q - 1, d - m)
        }
    }
}

/// The hour of the day, that many minutes east of Greenwich.
pub fn hour_at(at: i64, offset_minutes: i32) -> (r: u64)
    ensures
        r == hour_of(at as int, offset_minutes as int),
        r < 24,
{
    let (_, rest) = split(at as i128 + offset_minutes as i128 * 60_000_000);
    (rest / 3_600_000_000) as u64
}

proof fn lemma_epoch()
    ensures
        day_number(epoch()) == 719163,
{
    reveal_with_fuel(days_before_month, 2);
}

proof fn lemma_months(year: int)
    ensures
        ({
            let feb: int = if is_leap(year) {
                29
            } else {
                28
            };
            &&& days_before_month(year, 1) == 0
            &&& days_before_month(year, 2) == 31
            &&& days_before_month(year, 3) == 31 + feb
            &&& days_before_month(year, 4) == 62 + feb
            &&& days_before_month(year, 5) == 92 + feb
            &&& days_before_month(year, 6) == 123 + feb
            &&& days_before_month(year, 7) == 153 + feb
            &&& days_before_month(year, 8) == 184 + feb
            &&& days_before_month(year, 9) == 215 + feb
            &&& days_before_month(year, 10) == 245 + feb
            &&& days_before_month(year, 11) == 276 + feb
            &&& days_before_month(year, 12) == 306 + feb
        }),
{
    reveal_with_fuel(days_before_month, 13);
}

/// Four hundred years on, every cycle of leap years comes out whole.
proof fn lemma_cycles(year: int)
    ensures
        (year + 400_000) / 4 == year / 4 + 100_000,
        (year + 400_000) / 100 == year / 100 + 4_000,
        (year + 400_000) / 400 == year / 400 + 1_000,
{
}

/// The days of the year before a month begins.
fn before_month(year: i64, month: u32) -> (r: i64)
    requires
        -300_000 < year < 300_000,
        1 <= month <= 12,
    ensures
        r == days_before_month(year as int, month as int),
        0 <= r < 366,
{
    let z: i64 = year + 400_000;
    let leap = z % 4 == 0 && (z % 100 != 0 || z % 400 == 0);
    proof {
        let y = year as int;
        assert((y + 400_000) % 4 == y % 4);
        assert((y + 400_000) % 100 == y % 100);
        assert((y + 400_000) % 400 == y % 400);
        assert(leap == is_leap(y));
        lemma_months(y);
    }
    let feb: i64 = if leap {
        29
    } else {
        28
    };
    if month == 1 {
        0
    } else if month == 2 {
        31
    } else if month == 3 {
        31 + feb
    } else if month == 4 {
        62 + feb
    } else if month == 5 {
        92 + feb
    } else if month == 6 {
        123 + feb
    } else if month == 7 {
        153 + feb
    } else if month == 8 {
        184 + feb
    } else if month == 9 {
        215 + feb
    } else if month == 10 {
        245 + feb
    } else if month == 11 {
        276 + feb
    } else {
        306 + feb
    }
}

/// The number of a day, counted from the start of year one.
pub fn number_of(date: &Date) -> (r: i64)
    ensures
        r == day_number(date@),
        -100_000_000 < r < 100_000_000,
{
    let year: i64 = date.year() as i64;
    let month: u32 = date.month();
    let day: i64 = date.day() as i64;
    let z: i64 = year - 1 + 400_000;
    proof {
        lemma_cycles(year - 1);
    }
    let whole: i64 = 365 * (year - 1) + (z / 4 - 100_000) - (z / 100 - 4_000) + (z / 400 - 1_000);
    whole + before_month(year, month) + day
}

/// A stretch of days, open at either end.
#[derive(Clone, Copy, Debug)]
pub struct Span {
    pub from: Option<Date>,
    pub to: Option<Date>,
}

/// Whether a moment lies in a stretch of days.
pub open spec fn lies_in(at: int, from: Option<Day>, to: Option<Day>) -> bool {
    &&& from matches Some(f) ==> midnight(f) <= at
    &&& to matches Some(t) ==> at < midnight(t) + day_length()
}

impl Span {
    /// Whether a moment lies in the stretch.
    pub fn holds(&self, at: i64) -> (r: bool)
        ensures
            r == lies_in(at as int, opt_day(self.from), opt_day(self.to)),
    {
        proof {
            lemma_epoch();
        }
        let at: i128 = at as i128;
        let day: i128 = 86_400_000_000;
        if let Some(f) = &self.from {
            let start: i128 = (number_of(f) - 719163) as i128 * day;
            if at < start {
                return false;
            }
        }
        if let Some(t) = &self.to {
            let start: i128 = (number_of(t) - 719163) as i128 * day;
            if at >= start + day {
                return false;
            }
        }
        true
    }
}

/// The day that a moment falls into, in Greenwich, where a calendar has it.
pub fn date_of(at: i64) -> (r: Option<Date>)
    ensures
        opt_day(r) == day_of(at as int),
{
    proof {
        reveal(day_of);
    }
    let (days, _) = split(at as i128);
    let start = match Date::from_ymd(1970, 1, 1) {
        Some(d) => d,
        None => {
            return None;
        },
    };
    start.plus_days(days as i32)
}

/// `2026-07-15 09:30`, in Greenwich, where a calendar has the day.
pub fn show_stamp(at: i64) -> (r: Option<String>)
    ensures
        match stamp_text(at as int) {
            Some(s) => r is Some && r->0@ == s,
            None => r is None,
        },
{
    let (_, rest) = split(at as i128);
    let date = date_of(at)?;
    let hour = show_padded((rest / 3_600_000_000) as u64, 2);
    let minute = show_padded((rest / 60_000_000 % 60) as u64, 2);
    let day = date.iso();
    Some(cat5(day.as_str(), " ", hour.as_str(), ":", minute.as_str()))
}

/// `15 Jul 09:30`, in Greenwich; `None` for a day that no calendar has.
pub open spec fn moment_text(at: int) -> Option<Seq<char>> {
    match day_of(at) {
        Some(d) => Some(
            day_text(d) + " "@ + padded(hour_of(at, 0) as nat, 2) + ":"@ + padded(
                ((at % day_length()) / 60_000_000 % 60) as nat,
                2,
            ),
        ),
        None => None,
    }
}

/// `15 Jul 09:30`, in Greenwich, where a calendar has the day.
pub fn show_moment(at: i64) -> (r: Option<String>)
    ensures
        match moment_text(at as int) {
            Some(s) => r is Some && r->0@ == s,
            None => r is None,
        },
{
    let (_, rest) = split(at as i128);
    let date = date_of(at)?;
    let hour = show_padded((rest / 3_600_000_000) as u64, 2);
    let minute = show_padded((rest / 60_000_000 % 60) as u64, 2);
    let day = show_day(&date);
    Some(cat5(day.as_str(), " ", hour.as_str(), ":", minute.as_str()))
}

} // verus!
