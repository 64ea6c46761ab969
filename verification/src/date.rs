//! Calendar dates.

use crate::text::{digits, padded};
use vstd::prelude::*;

verus! {

/// A date as mathematics sees it: year, month from one, day from one.
pub type Day = (int, int, int);

pub open spec fn is_leap(year: int) -> bool {
    year % 4 == 0 && (year % 100 != 0 || year % 400 == 0)
}

pub open spec fn days_in_month(year: int, month: int) -> int {
    if month == 2 {
        if is_leap(year) {
            29
        } else {
            28
        }
    } else if month == 4 || month == 6 || month == 9 || month == 11 {
        30
    } else {
        31
    }
}

/// The days of the year before the month begins.
pub open spec fn days_before_month(year: int, month: int) -> int
    decreases month,
{
    if month <= 1 {
        0
    } else {
        days_before_month(year, month - 1) + days_in_month(year, month - 1)
    }
}

/// The days before the year begins, counted from the start of year one.
pub open spec fn days_before_year(year: int) -> int {
    365 * (year - 1) + (year - 1) / 4 - (year - 1) / 100 + (year - 1) / 400
}

/// The number of the day, the first of January of year one being day one.
pub open spec fn day_number(d: Day) -> int {
    days_before_year(d.0) + days_before_month(d.0, d.1) + d.2
}

/// The years a [`Date`] can lie in.
pub open spec fn year_in_range(year: int) -> bool {
    -262143 <= year <= 262142
}

pub open spec fn is_date(d: Day) -> bool {
    year_in_range(d.0) && 1 <= d.1 <= 12 && 1 <= d.2 <= days_in_month(d.0, d.1)
}

/// Whether `a` lies before `b`.
pub open spec fn earlier(a: Day, b: Day) -> bool {
    a.0 < b.0 || (a.0 == b.0 && (a.1 < b.1 || (a.1 == b.1 && a.2 < b.2)))
}

/// Whether `e` is the date that many days after `d`.
pub open spec fn is_shifted(d: Day, days: int, e: Day) -> bool {
    is_date(e) && day_number(e) == day_number(d) + days
}

/// The date that many days after `d`, where it is in range.
pub open spec fn shifted(d: Day, days: int) -> Option<Day> {
    if exists|e: Day| is_shifted(d, days, e) {
        Some(choose|e: Day| is_shifted(d, days, e))
    } else {
        None
    }
}

/// The day before.
pub open spec fn day_before(d: Day) -> Day {
    if d.2 > 1 {
        (d.0, d.1, d.2 - 1)
    } else if d.1 > 1 {
        (d.0, d.1 - 1, days_in_month(d.0, d.1 - 1))
    } else {
        (d.0 - 1, 12, 31)
    }
}

/// A year in at least four digits, with a sign where it needs more of them or
/// is negative.
pub open spec fn year_text(year: int) -> Seq<char> {
    if 0 <= year <= 9999 {
        padded(year as nat, 4)
    } else if -9999 <= year < 0 {
        "-"@ + padded((-year) as nat, 4)
    } else if year < 0 {
        "-"@ + digits((-year) as nat)
    } else {
        "+"@ + digits(year as nat)
    }
}

/// The month's name in three letters.
pub open spec fn month_name(month: int) -> Seq<char> {
    if month == 1 {
        "Jan"@
    } else if month == 2 {
        "Feb"@
    } else if month == 3 {
        "Mar"@
    } else if month == 4 {
        "Apr"@
    } else if month == 5 {
        "May"@
    } else if month == 6 {
        "Jun"@
    } else if month == 7 {
        "Jul"@
    } else if month == 8 {
        "Aug"@
    } else if month == 9 {
        "Sep"@
    } else if month == 10 {
        "Oct"@
    } else if month == 11 {
        "Nov"@
    } else {
        "Dec"@
    }
}

/// `2026-07-15`.
pub open spec fn iso_text(d: Day) -> Seq<char> {
    year_text(d.0) + "-"@ + padded(d.1 as nat, 2) + "-"@ + padded(d.2 as nat, 2)
}

/// `15-Jul-2026`.
pub open spec fn named_text(d: Day) -> Seq<char> {
    padded(d.2 as nat, 2) + "-"@ + month_name(d.1) + "-"@ + year_text(d.0)
}

/// `Jul 2026`.
pub open spec fn month_text(d: Day) -> Seq<char> {
    month_name(d.1) + " "@ + year_text(d.0)
}

/// A calendar date.
#[derive(Clone, Copy, Debug, PartialEq, Eq)]
pub struct Date {
    year: i32,
    month: u32,
    day: u32,
}

impl View for Date {
    type V = (int, int, int);

    closed spec fn view(&self) -> (int, int, int) {
        (self.year as int, self.month as int, self.day as int)
    }
}

/// What an optional date holds.
pub open spec fn opt_day(d: Option<Date>) -> Option<Day> {
    match d {
        Some(d) => Some(d@),
        None => None,
    }
}

// ---------------------------------------------------------------------------
// Outside functions
// ---------------------------------------------------------------------------

/// Calls `chrono::NaiveDate::from_ymd_opt`: whether the calendar has that
/// day, in the range of years that chrono holds.
#[verifier::external_body]
fn outside_is_date(year: i32, month: u32, day: u32) -> (r: bool)
    ensures
        r == is_date((year as int, month as int, day as int)),
{
    chrono::NaiveDate::from_ymd_opt(year, month, day).is_some()
}

/// Calls `chrono::NaiveDate::checked_add_signed`: the date that many days
/// later, or nothing where it lies outside the years that chrono holds.
#[verifier::external_body]
fn outside_add_days(d: Date, days: i32) -> (r: Option<Date>)
    ensures
        match r {
            Some(e) => day_number(e@) == day_number(d@) + days,
            None => day_number(d@) + days < day_number((-262143, 1, 1)) || day_number(d@) + days
                > day_number((262142, 12, 31)),
        },
{
    let start = chrono::NaiveDate::from_ymd_opt(d.year, d.month, d.day)?;
    let end = start.checked_add_signed(chrono::Duration::days(days as i64))?;
    Some(
        Date {
            year: chrono::Datelike::year(&end),
            month: chrono::Datelike::month(&end),
            day: chrono::Datelike::day(&end),
        },
    )
}

/// Writes `chrono::NaiveDate`'s `Display` form: year, month and day in digits.
#[verifier::external_body]
fn outside_iso(d: Date) -> (r: String)
    ensures
        r@ == iso_text(d@),
{
    let date = chrono::NaiveDate::from_ymd_opt(d.year, d.month, d.day).unwrap_or_default();
    date.to_string()
}

/// Writes `chrono::NaiveDate::format` with `%d-%b-%Y`: day, English month name
/// in three letters, and year.
#[verifier::external_body]
fn outside_named(d: Date) -> (r: String)
    ensures
        r@ == named_text(d@),
{
    let date = chrono::NaiveDate::from_ymd_opt(d.year, d.month, d.day).unwrap_or_default();
    date.format("%d-%b-%Y").to_string()
}

/// Writes `chrono::NaiveDate::format` with `%b %Y`: English month name in
/// three letters, and year.
#[verifier::external_body]
fn outside_month(d: Date) -> (r: String)
    ensures
        r@ == month_text(d@),
{
    let date = chrono::NaiveDate::from_ymd_opt(d.year, d.month, d.day).unwrap_or_default();
    date.format("%b %Y").to_string()
}

// ---------------------------------------------------------------------------
// The type
// ---------------------------------------------------------------------------

impl Date {
    #[verifier::type_invariant]
    closed spec fn well_formed(self) -> bool {
        is_date((self.year as int, self.month as int, self.day as int))
    }

    /// The date, where the calendar has it.
    pub fn from_ymd(year: i32, month: u32, day: u32) -> (r: Option<Date>)
        ensures
            opt_day(r) == if is_date((year as int, month as int, day as int)) {
                Some((year as int, month as int, day as int))
            } else {
                None
            },
    {
        if outside_is_date(year, month, day) {
            Some(Date { year, month, day })
        } else {
            None
        }
    }

    pub fn year(&self) -> (r: i32)
        ensures
            r == self@.0,
            year_in_range(r as int),
    {
        proof {
            use_type_invariant(self);
        }
        self.year
    }

    pub fn month(&self) -> (r: u32)
        ensures
            r == self@.1,
            1 <= r <= 12,
    {
        proof {
            use_type_invariant(self);
        }
        self.month
    }

    pub fn day(&self) -> (r: u32)
        ensures
            r == self@.2,
            is_date(self@),
    {
        proof {
            use_type_invariant(self);
        }
        self.day
    }

    /// Whether this date lies before `other`.
    pub fn is_before(&self, other: &Date) -> (r: bool)
        ensures
            r == earlier(self@, other@),
    {
        self.year < other.year || (self.year == other.year && (self.month < other.month || (
        self.month == other.month && self.day < other.day)))
    }

    /// Whether the two are the same day.
    pub fn is_same(&self, other: &Date) -> (r: bool)
        ensures
            r == (self@ == other@),
    {
        self.year == other.year && self.month == other.month && self.day == other.day
    }

    /// The day before, unless this is the first day of all.
    pub fn pred(&self) -> (r: Option<Date>)
        ensures
            opt_day(r) == if self@ == (-262143int, 1int, 1int) {
                None
            } else {
                Some(day_before(self@))
            },
    {
        proof {
            use_type_invariant(self);
        }
        if self.day > 1 {
            Some(Date { year: self.year, month: self.month, day: self.day - 1 })
        } else if self.month > 1 {
            let m: u32 = self.month - 1;
            let leap = self.year % 4 == 0 && (self.year % 100 != 0 || self.year % 400 == 0);
            let last: u32 = if m == 2 {
                if leap {
                    29
                } else {
                    28
                }
            } else if m == 4 || m == 6 || m == 9 || m == 11 {
                30
            } else {
                31
            };
            Some(Date { year: self.year, month: m, day: last })
        } else if self.year == -262143 {
            None
        } else {
            Some(Date { year: self.year - 1, month: 12, day: 31 })
        }
    }

    /// The date that many days later, where it is in range.
    pub fn plus_days(&self, days: i32) -> (r: Option<Date>)
        ensures
            opt_day(r) == shifted(self@, days as int),
    {
        let r = outside_add_days(*self, days);
        match &r {
            Some(e) => {
                proof {
                    use_type_invariant(e);
                    let c = shifted(self@, days as int)->0;
                    assert(is_shifted(self@, days as int, e@));
                    assert(is_shifted(self@, days as int, c));
                    lemma_day_number_orders(e@, c);
                    lemma_day_number_orders(c, e@);
                }
            },
            None => {
                proof {
                    assert forall|e: Day| !#[trigger] is_shifted(self@, days as int, e) by {
                        if is_shifted(self@, days as int, e) {
                            lemma_day_number_orders((-262143, 1, 1), e);
                            lemma_day_number_orders(e, (262142, 12, 31));
                        }
                    }
                }
            },
        }
        r
    }

    /// `2026-07-15`.
    pub fn iso(&self) -> (r: String)
        ensures
            r@ == iso_text(self@),
    {
        outside_iso(*self)
    }

    /// `15-Jul-2026`.
    pub fn named(&self) -> (r: String)
        ensures
            r@ == named_text(self@),
    {
        outside_named(*self)
    }

    /// `Jul 2026`.
    pub fn month_and_year(&self) -> (r: String)
        ensures
            r@ == month_text(self@),
    {
        outside_month(*self)
    }
}

/// The day before is one day earlier in the count of days.
pub proof fn lemma_day_before(d: Day)
    requires
        1 <= d.1 <= 12,
        1 <= d.2 <= days_in_month(d.0, d.1),
    ensures
        day_number(day_before(d)) == day_number(d) - 1,
        earlier(day_before(d), d),
{
    if d.2 == 1 && d.1 == 1 {
        let y = d.0 - 1;
        lemma_year_length(y);
        assert(days_before_year(d.0) - days_before_year(y) == 365 + (if is_leap(y) { 1int } else { 0 }))
            by {
            assert(y / 4 - (y - 1) / 4 == if y % 4 == 0 { 1int } else { 0 });
            assert(y / 100 - (y - 1) / 100 == if y % 100 == 0 { 1int } else { 0 });
            assert(y / 400 - (y - 1) / 400 == if y % 400 == 0 { 1int } else { 0 });
        }
    }
}

proof fn lemma_year_length(y: int)
    ensures
        days_before_month(y, 12) + 31 == 365 + (if is_leap(y) {
            1int
        } else {
            0
        }),
        days_before_month(y, 1) == 0,
{
    reveal_with_fuel(days_before_month, 13);
}

proof fn lemma_month_within_year(year: int, month: int, day: int)
    requires
        1 <= month <= 12,
        1 <= day <= days_in_month(year, month),
    ensures
        1 <= days_before_month(year, month) + day <= 365 + if is_leap(year) {
            1int
        } else {
            0
        },
{
    reveal_with_fuel(days_before_month, 13);
}

proof fn lemma_months_order(year: int, m: int, n: int)
    requires
        1 <= m < n <= 12,
    ensures
        days_before_month(year, m) + days_in_month(year, m) <= days_before_month(year, n),
    decreases n - m,
{
    reveal_with_fuel(days_before_month, 2);
    if m + 1 < n {
        lemma_months_order(year, m, n - 1);
    }
}

proof fn lemma_years_order(y: int, z: int)
    requires
        y < z,
    ensures
        days_before_year(y) + 365 + (if is_leap(y) {
            1int
        } else {
            0
        }) <= days_before_year(z),
    decreases z - y,
{
    let w = z - 1;
    assert(w / 4 - (w - 1) / 4 == if w % 4 == 0 { 1int } else { 0 });
    assert(w / 100 - (w - 1) / 100 == if w % 100 == 0 { 1int } else { 0 });
    assert(w / 400 - (w - 1) / 400 == if w % 400 == 0 { 1int } else { 0 });
    assert(days_before_year(z) == days_before_year(w) + 365 + if is_leap(w) { 1int } else { 0 });
    if y < w {
        lemma_years_order(y, w);
    }
}

/// Dates follow each other as their numbers do: of two dates the earlier one
/// has the smaller number.
pub proof fn lemma_day_number_orders(a: Day, b: Day)
    requires
        is_date(a),
        is_date(b),
    ensures
        earlier(a, b) ==> day_number(a) < day_number(b),
        a != b ==> earlier(a, b) || earlier(b, a),
{
    if earlier(a, b) {
        if a.0 == b.0 {
            if a.1 < b.1 {
                lemma_months_order(a.0, a.1, b.1);
            }
        } else {
            lemma_years_order(a.0, b.0);
            lemma_month_within_year(a.0, a.1, a.2);
            lemma_month_within_year(b.0, b.1, b.2);
        }
    }
}

} // verus!
