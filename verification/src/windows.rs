//! The windows that dashboards look through: the month so far, the month before,
//! the last months and days, and what is newest.

use crate::clock::Span;
use crate::date::{
    day_before, day_number, days_in_month, is_date, iso_text, lemma_day_before, opt_day, shifted,
    year_text, Date, Day,
};
use crate::search::at_most;
use crate::sort::{
    arrange, arranged, arranging_keeps_the_elements, backwards, lemma_arranged_members, Ordered,
};
use crate::text::padded;
use vstd::prelude::*;

verus! {

/// The first day of a day's month.
pub open spec fn month_start(d: Day) -> Day {
    (d.0, d.1, 1)
}

/// The last day of a day's month.
pub open spec fn month_end(d: Day) -> Day {
    (d.0, d.1, days_in_month(d.0, d.1))
}

/// The first day of the month `n` months back.
pub open spec fn months_back(d: Day, n: nat) -> Day
    decreases n,
{
    if n == 0 {
        month_start(d)
    } else {
        month_start(day_before(months_back(d, (n - 1) as nat)))
    }
}

/// The first day of all.
pub open spec fn first_of_all() -> Day {
    (-262143, 1, 1)
}

fn start_of(d: &Date) -> (r: Date)
    ensures
        r@ == month_start(d@),
{
    let _ = d.day();
    match Date::from_ymd(d.year(), d.month(), 1) {
        Some(first) => first,
        None => *d,
    }
}

fn end_of(d: &Date) -> (r: Date)
    ensures
        r@ == month_end(d@),
{
    let _ = d.day();
    let year: i32 = d.year();
    let m: u32 = d.month();
    let leap = year % 4 == 0 && (year % 100 != 0 || year % 400 == 0);
    let last: u32 = if m == 2 {
        if leap {
            29
        } else {
            28
        }
    } else if m == 4 || m == 6 || m == 9 || m == 11 {
        30
    } else {
        31
    };
    match Date::from_ymd(year, m, last) {
        Some(end) => end,
        None => *d,
    }
}

/// The month so far: from its first day to today.
pub fn month_to_date(today: Date) -> (r: Span)
    ensures
        opt_day(r.from) == Some(month_start(today@)),
        r.to == Some(today),
{
    Span { from: Some(start_of(&today)), to: Some(today) }
}

/// The month before this one, unless this is the first of all.
pub fn previous_month(today: Date) -> (r: Option<Span>)
    ensures
        match r {
            Some(s) => {
                let end = day_before(month_start(today@));
                &&& month_start(today@) != first_of_all()
                &&& opt_day(s.from) == Some(month_start(end))
                &&& opt_day(s.to) == Some(end)
            },
            None => month_start(today@) == first_of_all(),
        },
{
    match start_of(&today).pred() {
        Some(end) => Some(Span { from: Some(start_of(&end)), to: Some(end) }),
        None => None,
    }
}

/// A month: its first and last day, and what it is called.
#[derive(Debug)]
pub struct Month {
    pub from: Date,
    pub to: Date,
    /// As `2026-07`.
    pub key: String,
}

/// `2026-07`.
pub open spec fn month_key(d: Day) -> Seq<char> {
    iso_text(d).take(iso_text(d).len() - 3)
}

fn show_key(d: &Date) -> (r: String)
    ensures
        r@ == month_key(d@),
{
    let whole = d.iso();
    let n: usize = whole.as_str().unicode_len();
    proof {
        reveal_strlit("-");
        reveal_with_fuel(padded, 3);
        assert(iso_text(d@).len() == year_text(d@.0).len() + 6);
    }
    let part = whole.as_str().substring_char(0, n - 3);
    assert(part@ =~= month_key(d@));
    part.to_owned()
}

/// Whether a month is the one that begins on a day.
pub open spec fn is_month(m: Month, first: Day) -> bool {
    m.from@ == first && m.to@ == month_end(first) && m.key@ == month_key(first)
}

/// The last `n` months with this one, the oldest first; fewer where the calendar
/// does not reach back that far.
pub fn last_months(today: Date, n: usize) -> (r: Vec<Month>)
    ensures
        r@.len() <= n,
        r@.len() < n ==> r@.len() > 0 && months_back(today@, (r@.len() - 1) as nat)
            == first_of_all(),
        forall|i: int|
            0 <= i < r@.len() ==> is_month(
                #[trigger] r@[i],
                months_back(today@, (r@.len() - 1 - i) as nat),
            ),
{
    let mut out: Vec<Month> = Vec::new();
    let mut first = start_of(&today);
    let mut more = n > 0;
    while more
        invariant
            more ==> out@.len() < n,
            more ==> first@ == months_back(today@, out@.len()),
            out@.len() <= n,
            !more && out@.len() < n ==> out@.len() > 0 && months_back(
                today@,
                (out@.len() - 1) as nat,
            ) == first_of_all(),
            forall|i: int|
                0 <= i < out@.len() ==> is_month(
                    #[trigger] out@[i],
                    months_back(today@, i as nat),
                ),
        decreases n - out@.len() + if more {
            1int
        } else {
            0
        },
    {
        out.push(Month { from: first, to: end_of(&first), key: show_key(&first) });
        if out.len() == n {
            more = false;
        } else {
            match first.pred() {
                Some(end) => {
                    first = start_of(&end);
                },
                None => {
                    more = false;
                },
            }
        }
    }
    let ghost newest = out@;
    let r = backwards(out);
    assert forall|i: int| 0 <= i < r@.len() implies is_month(
        #[trigger] r@[i],
        months_back(today@, (r@.len() - 1 - i) as nat),
    ) by {
        assert(r@[i] == newest[newest.len() - 1 - i]);
    }
    r
}

/// The seven days that end with today; nothing where the calendar does not reach
/// back that far.
pub fn last_week(today: Date) -> (r: Option<Vec<Date>>)
    ensures
        match r {
            Some(days) => days@.len() == 7 && forall|i: int|
                0 <= i < 7 ==> Some((#[trigger] days@[i])@) == shifted(today@, i - 6),
            None => exists|i: int| 0 <= i < 7 && #[trigger] shifted(today@, i - 6) is None,
        },
{
    let mut days: Vec<Date> = Vec::new();
    let mut i: i32 = 0;
    while i < 7
        invariant
            0 <= i <= 7,
            days@.len() == i,
            forall|k: int|
                0 <= k < i ==> Some((#[trigger] days@[k])@) == shifted(today@, k - 6),
        decreases 7 - i,
    {
        match today.plus_days(i - 6) {
            Some(d) => {
                days.push(d);
            },
            None => {
                assert(shifted(today@, i as int - 6) is None);
                return None;
            },
        }
        i = i + 1;
    }
    Some(days)
}

/// How many of the newest documents a list shows.
pub const RECENT: usize = 6;

/// A place in a list, and the moment of what stands there.
pub struct Place {
    pub at: i64,
    pub index: usize,
}

/// The latest moment stands first.
impl Ordered for Place {
    open spec fn precedes(a: Place, b: Place) -> bool {
        a.at > b.at
    }

    fn goes_before(&self, other: &Place) -> (r: bool) {
        self.at > other.at
    }
}

pub open spec fn places(moments: Seq<i64>) -> Seq<Place> {
    moments.map(|i: int, at: i64| Place { at, index: i as usize })
}

/// The places of the newest, the latest first.
pub open spec fn newest_places(moments: Seq<i64>) -> Seq<Place> {
    at_most(arranged(places(moments)), RECENT as int)
}

/// The newest stand in the list.
pub proof fn lemma_newest(moments: Seq<i64>)
    requires
        moments.len() <= usize::MAX,
    ensures
        forall|i: int|
            0 <= i < newest_places(moments).len() ==> (#[trigger] newest_places(moments)[i]).index
                < moments.len(),
{
    let all = places(moments);
    lemma_arranged_members(all);
    arranging_keeps_the_elements(all);
    assert forall|i: int| 0 <= i < newest_places(moments).len() implies (#[trigger] newest_places(
        moments,
    )[i]).index < moments.len() by {
        let x = arranged(all)[i];
        assert(newest_places(moments)[i] == x);
        assert(arranged(all).contains(x));
        assert(all.contains(x));
        let j = choose|j: int| 0 <= j < all.len() && all[j] == x;
        assert(x.index == j as usize);
    }
}

/// Find the newest of a list by their moments, the latest first.
pub fn newest(moments: &Vec<i64>) -> (r: Vec<Place>)
    ensures
        r@ == newest_places(moments@),
{
    let mut list: Vec<Place> = Vec::new();
    let mut i: usize = 0;
    while i < moments.len()
        invariant
            i <= moments.len(),
            list@ == places(moments@).take(i as int),
        decreases moments.len() - i,
    {
        list.push(Place { at: moments[i], index: i });
        assert(list@ =~= places(moments@).take(i + 1));
        i = i + 1;
    }
    assert(list@ =~= places(moments@));
    let mut all = arrange(list);
    if all.len() > RECENT {
        all.truncate(RECENT);
        assert(all@ =~= newest_places(moments@));
    }
    all
}

/// The months follow each other without a gap or an overlap: each begins on its first day,
/// is the one before the next in the calendar, and ends the day before the next begins.
pub proof fn months_follow_each_other(d: Day, n: nat)
    requires
        is_date(d),
        1 <= d.1 <= 12,
    ensures
        ({
            let later = months_back(d, n);
            let earlier_one = months_back(d, n + 1);
            &&& months_back(d, 0) == (d.0, d.1, 1int)
            &&& earlier_one.2 == 1
            &&& later.0 * 12 + later.1 == d.0 * 12 + d.1 - n
            &&& 1 <= later.1 <= 12
            &&& day_number(month_end(earlier_one)) + 1 == day_number(later)
        }),
    decreases n,
{
    if n > 0 {
        months_follow_each_other(d, (n - 1) as nat);
    }
    let later = months_back(d, n);
    assert(later.2 == 1);
    lemma_day_before(later);
    let eve = day_before(later);
    assert(months_back(d, n + 1) == month_start(eve));
    assert(month_end(months_back(d, n + 1)) == eve);
}

} // verus!
