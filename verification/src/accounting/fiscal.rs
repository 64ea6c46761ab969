//! Fiscal years and periods: the posting calendar.
//!
//! A fiscal year spans twelve consecutive monthly periods. An entry may only
//! be posted into an open period; closing a period finalises the month, and
//! locking makes the close permanent. Dates that fall outside every period are
//! unconstrained, so a set of books without a calendar can still be posted to.

use crate::date::{
    day_before, day_number, earlier, is_date, iso_text, lemma_day_before, lemma_day_number_orders,
    month_text, Date, Day,
};
use crate::error::{refusal, Error, Refusal};
use crate::search::{find, first_from, first_where, kept, kept_to, lemma_first_from};
use crate::sort::{arrange, arranged, Ordered};
use crate::text::{
    cat2, cat4, cat5, id_text, int_text, is_blank, opt_text, quote, quoted, same, show_id, show_int,
    trim, trimmed,
};
use vstd::prelude::*;

verus! {

/// A period's lifecycle: postings land only in `Open`; `Closed` finalises a
/// month; `Locked` is permanent.
#[derive(Clone, Copy, Debug, PartialEq, Eq, Structural)]
pub enum PeriodStatus {
    Open,
    Closed,
    Locked,
}

pub open spec fn status_text(s: PeriodStatus) -> Seq<char> {
    match s {
        PeriodStatus::Open => "open"@,
        PeriodStatus::Closed => "closed"@,
        PeriodStatus::Locked => "locked"@,
    }
}

impl PeriodStatus {
    pub fn as_str(self) -> (r: &'static str)
        ensures
            r@ == status_text(self),
    {
        match self {
            PeriodStatus::Open => "open",
            PeriodStatus::Closed => "closed",
            PeriodStatus::Locked => "locked",
        }
    }

    /// The status a stored text stands for.
    pub fn parse(value: &str) -> (r: Result<PeriodStatus, Error>)
        ensures
            match r {
                Ok(s) => value@ == status_text(s),
                Err(e) => (forall|s: PeriodStatus| value@ != #[trigger] status_text(s)) && e@
                    == Refusal::Internal("unknown period status "@ + quoted(value@)),
            },
    {
        if same(value, "open") {
            Ok(PeriodStatus::Open)
        } else if same(value, "closed") {
            Ok(PeriodStatus::Closed)
        } else if same(value, "locked") {
            Ok(PeriodStatus::Locked)
        } else {
            let shown = quote(value);
            Err(Error::Internal(cat2("unknown period status ", shown.as_str())))
        }
    }
}

/// No two statuses are written alike, so reading back what was written gives
/// the status that was written.
pub proof fn status_text_is_unambiguous(a: PeriodStatus, b: PeriodStatus)
    ensures
        status_text(a) == status_text(b) ==> a == b,
{
    reveal_strlit("open");
    reveal_strlit("closed");
    reveal_strlit("locked");
    assert("open"@.len() == 4);
    assert("closed"@[0] == 'c');
    assert("locked"@[0] == 'l');
}

// ---------------------------------------------------------------------------
// The shape of a year
// ---------------------------------------------------------------------------

/// The first day of the month `months` after the month of `base`.
pub open spec fn month_start(base: Day, months: int) -> Day {
    let total = base.1 - 1 + months;
    (base.0 + total / 12, total % 12 + 1, 1)
}

/// The name a year gets unless it is given one.
pub open spec fn year_name(start: Day, end: Day) -> Seq<char> {
    if start.0 == end.0 {
        "FY"@ + int_text(start.0)
    } else {
        "FY"@ + int_text(start.0) + "/"@ + int_text(end.0)
    }
}

pub open spec fn chosen_year_name(name: Option<Seq<char>>, start: Day, end: Day) -> Seq<char> {
    match name {
        Some(n) if !is_blank(n) => trimmed(n),
        _ => year_name(start, end),
    }
}

/// The first day of the month `months` after the first-of-month `base`.
fn first_of_month_plus(base: Date, months: u32) -> (r: Date)
    requires
        months <= 12,
        base@.0 < 262142,
    ensures
        r@ == month_start(base@, months as int),
        is_date(r@),
        months >= 1 ==> r@ != (-262143int, 1int, 1int),
{
    let total: u32 = base.month() - 1 + months;
    let year: i32 = base.year() + (total / 12) as i32;
    let month: u32 = total % 12 + 1;
    match Date::from_ymd(year, month, 1) {
        Some(d) => d,
        None => {
            assert(false);
            base
        },
    }
}

/// The day before the first of the month `months` after `base`.
fn month_end_before(base: Date, months: u32) -> (r: Date)
    requires
        1 <= months <= 12,
        base@.0 < 262142,
    ensures
        r@ == day_before(month_start(base@, months as int)),
{
    let first = first_of_month_plus(base, months);
    match first.pred() {
        Some(d) => d,
        None => {
            assert(false);
            base
        },
    }
}

fn default_year_name(start: Date, end: Date) -> (r: String)
    ensures
        r@ == year_name(start@, end@),
{
    let first = show_int(start.year() as i64);
    if start.year() == end.year() {
        cat2("FY", first.as_str())
    } else {
        let second = show_int(end.year() as i64);
        cat4("FY", first.as_str(), "/", second.as_str())
    }
}

// ---------------------------------------------------------------------------
// The calendar
// ---------------------------------------------------------------------------

/// A stored period.
#[derive(Debug)]
pub struct Period {
    pub id: u128,
    pub fiscal_year_id: u128,
    pub period_number: i32,
    pub name: String,
    pub start_date: Date,
    pub end_date: Date,
    pub status: PeriodStatus,
}

/// Whether a period covers a date.
pub open spec fn covers(p: Period, d: Day) -> bool {
    !earlier(d, p.start_date@) && !earlier(p.end_date@, d)
}

/// Whether a period has a day in common with the range.
pub open spec fn overlaps(p: Period, from: Day, to: Day) -> bool {
    !earlier(to, p.start_date@) && !earlier(p.end_date@, from)
}

/// Whether any period has a day in common with the range.
pub open spec fn overlapped(periods: Seq<Period>, from: Day, to: Day) -> bool {
    exists|i: int| 0 <= i < periods.len() && overlaps(#[trigger] periods[i], from, to)
}

/// A fiscal year.
#[derive(Debug)]
pub struct Year {
    pub id: u128,
    pub name: String,
    pub start_date: Date,
    pub end_date: Date,
}

/// The fiscal calendar that a set of books holds.
#[derive(Debug)]
pub struct FiscalService {
    pub years: Vec<Year>,
    pub periods: Vec<Period>,
}

/// The status of the first period, from the `n`th on, that covers the date.
pub open spec fn first_cover(periods: Seq<Period>, d: Day, n: int) -> Option<PeriodStatus>
    decreases periods.len() - n,
{
    if n < 0 || n >= periods.len() {
        None
    } else if covers(periods[n], d) {
        Some(periods[n].status)
    } else {
        first_cover(periods, d, n + 1)
    }
}

/// Whether postings may land on a date: no period covers it, or the one that
/// does is open.
pub open spec fn open_for_post(periods: Seq<Period>, d: Day) -> bool {
    match first_cover(periods, d, 0) {
        Some(s) => s == PeriodStatus::Open,
        None => true,
    }
}

/// The status of the period covering `date`, or nothing where none does.
pub fn period_status_for_date(periods: &Vec<Period>, date: Date) -> (r: Option<PeriodStatus>)
    ensures
        r == first_cover(periods@, date@, 0),
{
    let mut i: usize = 0;
    while i < periods.len()
        invariant
            i <= periods.len(),
            first_cover(periods@, date@, 0) == first_cover(periods@, date@, i as int),
        decreases periods.len() - i,
    {
        let p = &periods[i];
        if !date.is_before(&p.start_date) && !p.end_date.is_before(&date) {
            return Some(p.status);
        }
        i = i + 1;
    }
    None
}

/// Refuse to post on a date whose period is closed or locked. A date
/// without a period is allowed.
pub fn ensure_open_for_post(periods: &Vec<Period>, date: Date) -> (r: Result<(), Error>)
    ensures
        match r {
            Ok(_) => open_for_post(periods@, date@),
            Err(e) => match first_cover(periods@, date@, 0) {
                Some(s) => s != PeriodStatus::Open && e@ == Refusal::Validation(
                    "the accounting period for "@ + iso_text(date@) + " is "@ + status_text(s)
                        + "; reopen it before posting"@,
                ),
                None => false,
            },
        },
{
    match period_status_for_date(periods, date) {
        Some(status) => {
            if status != PeriodStatus::Open {
                let day = date.iso();
                return Err(
                    Error::Validation(
                        cat5(
                            "the accounting period for ",
                            day.as_str(),
                            " is ",
                            status.as_str(),
                            "; reopen it before posting",
                        ),
                    ),
                );
            }
            Ok(())
        },
        None => Ok(()),
    }
}

// ---------------------------------------------------------------------------
// The lifecycle of a period
// ---------------------------------------------------------------------------

/// The word for moving a period to a status.
pub open spec fn verb_to(to: PeriodStatus) -> Seq<char> {
    match to {
        PeriodStatus::Closed => "close"@,
        PeriodStatus::Open => "reopen"@,
        PeriodStatus::Locked => "lock"@,
    }
}

/// The moves a period can make: close, reopen, lock.
pub open spec fn may_move(from: PeriodStatus, to: PeriodStatus) -> bool {
    match to {
        PeriodStatus::Closed => from == PeriodStatus::Open,
        PeriodStatus::Open => from == PeriodStatus::Closed,
        PeriodStatus::Locked => from == PeriodStatus::Closed,
    }
}

pub open spec fn moved(current: PeriodStatus, to: PeriodStatus) -> Result<PeriodStatus, Refusal> {
    if may_move(current, to) {
        Ok(to)
    } else {
        Err(
            Refusal::Validation(
                "cannot "@ + verb_to(to) + " a period that is "@ + status_text(current),
            ),
        )
    }
}

/// What moving the period with that id comes to.
pub open spec fn moved_by_id(periods: Seq<Period>, id: u128, to: PeriodStatus) -> Result<
    PeriodStatus,
    Refusal,
> {
    match first_where(periods, has_id(id)) {
        None => Err(Refusal::NotFound("fiscal period "@ + id_text(id))),
        Some(p) => moved(p.status, to),
    }
}

pub open spec fn has_id(id: u128) -> spec_fn(Period) -> bool {
    |p: Period| p.id == id
}

// ---------------------------------------------------------------------------
// Views
// ---------------------------------------------------------------------------

/// What a year's periods make of the year: locked where all of them are (and
/// there are any), open where any is, closed otherwise.
pub open spec fn year_status(periods: Seq<Period>) -> PeriodStatus {
    if periods.len() > 0 && (forall|i: int|
        0 <= i < periods.len() ==> (#[trigger] periods[i]).status == PeriodStatus::Locked) {
        PeriodStatus::Locked
    } else if exists|i: int|
        0 <= i < periods.len() && (#[trigger] periods[i]).status == PeriodStatus::Open {
        PeriodStatus::Open
    } else {
        PeriodStatus::Closed
    }
}

/// A period as it is shown.
#[derive(Debug)]
pub struct FiscalPeriodView {
    pub id: u128,
    pub period_number: i32,
    pub name: String,
    pub start_date: Date,
    pub end_date: Date,
    pub status: PeriodStatus,
}

impl Ordered for FiscalPeriodView {
    /// The periods stand by their numbers.
    open spec fn precedes(a: Self, b: Self) -> bool {
        a.period_number < b.period_number
    }

    fn goes_before(&self, other: &Self) -> (r: bool) {
        self.period_number < other.period_number
    }
}

/// A fiscal year as it is shown, with its periods.
#[derive(Debug)]
pub struct FiscalYearView {
    pub id: u128,
    pub name: String,
    pub start_date: Date,
    pub end_date: Date,
    /// Derived from the periods.
    pub status: PeriodStatus,
    pub periods: Vec<FiscalPeriodView>,
}

impl Ordered for FiscalYearView {
    /// The year that starts last stands first.
    open spec fn precedes(a: Self, b: Self) -> bool {
        earlier(b.start_date@, a.start_date@)
    }

    fn goes_before(&self, other: &Self) -> (r: bool) {
        other.start_date.is_before(&self.start_date)
    }
}

pub open spec fn shows_period(v: FiscalPeriodView, p: Period) -> bool {
    &&& v.id == p.id
    &&& v.period_number == p.period_number
    &&& v.name@ == p.name@
    &&& v.start_date == p.start_date
    &&& v.end_date == p.end_date
    &&& v.status == p.status
}

pub open spec fn shows_periods(rows: Seq<FiscalPeriodView>, periods: Seq<Period>) -> bool {
    &&& rows.len() == periods.len()
    &&& forall|i: int| 0 <= i < rows.len() ==> shows_period(#[trigger] rows[i], periods[i])
}

pub open spec fn year_id(id: u128) -> spec_fn(Year) -> bool {
    |y: Year| y.id == id
}

pub open spec fn of_year(id: u128) -> spec_fn(Period) -> bool {
    |p: Period| p.fiscal_year_id == id
}

/// Whether a view shows a year with those of the periods that are its own, by
/// their numbers, and the status they make.
pub open spec fn shows_year(v: FiscalYearView, y: Year, periods: Seq<Period>) -> bool {
    let own = kept(periods, of_year(y.id));
    &&& v.id == y.id
    &&& v.name@ == y.name@
    &&& v.start_date == y.start_date
    &&& v.end_date == y.end_date
    &&& v.status == year_status(own)
    &&& exists|rows: Seq<FiscalPeriodView>|
        #[trigger] shows_periods(rows, own) && v.periods@ == arranged(rows)
}

fn show_period(p: &Period) -> (r: FiscalPeriodView)
    ensures
        shows_period(r, *p),
{
    FiscalPeriodView {
        id: p.id,
        period_number: p.period_number,
        name: p.name.clone(),
        start_date: p.start_date,
        end_date: p.end_date,
        status: p.status,
    }
}

/// A year with its periods, in their order, and the status they make.
pub fn build_year_view(y: &Year, periods: &Vec<Period>) -> (r: FiscalYearView)
    ensures
        shows_year(r, *y, periods@),
{
    let mut rows: Vec<FiscalPeriodView> = Vec::new();
    let mut any_open = false;
    let mut all_locked = true;
    let mut i: usize = 0;
    while i < periods.len()
        invariant
            i <= periods.len(),
            shows_periods(rows@, kept_to(periods@, of_year(y.id), i as nat)),
            any_open <==> exists|j: int|
                0 <= j < rows@.len() && (#[trigger] rows@[j]).status == PeriodStatus::Open,
            all_locked <==> forall|j: int|
                0 <= j < rows@.len() ==> (#[trigger] rows@[j]).status == PeriodStatus::Locked,
        decreases periods.len() - i,
    {
        let p = &periods[i];
        if p.fiscal_year_id == y.id {
            let ghost before = rows@;
            rows.push(show_period(p));
            proof {
                assert(rows@.last().status == p.status);
                assert(forall|j: int| 0 <= j < before.len() ==> #[trigger] rows@[j] == before[j]);
                assert(forall|j: int| 0 <= j < before.len() ==> #[trigger] before[j] == rows@[j]);
            }
            any_open = any_open || p.status == PeriodStatus::Open;
            all_locked = all_locked && p.status == PeriodStatus::Locked;
        }
        i = i + 1;
    }
    let ghost own = kept(periods@, of_year(y.id));
    let status = if rows.len() > 0 && all_locked {
        PeriodStatus::Locked
    } else if any_open {
        PeriodStatus::Open
    } else {
        PeriodStatus::Closed
    };
    proof {
        assert(shows_periods(rows@, own));
        assert(forall|j: int| 0 <= j < own.len() ==> (#[trigger] own[j]).status == rows@[j].status);
        assert(forall|j: int| 0 <= j < own.len() ==> (#[trigger] rows@[j]).status == own[j].status);
        assert(status == year_status(own));
    }
    FiscalYearView {
        id: y.id,
        name: y.name.clone(),
        start_date: y.start_date,
        end_date: y.end_date,
        status,
        periods: arrange(rows),
    }
}

/// What is shown of the year with that id.
pub open spec fn is_year_view(
    r: Result<FiscalYearView, Error>,
    years: Seq<Year>,
    periods: Seq<Period>,
    id: u128,
) -> bool {
    match first_where(years, year_id(id)) {
        None => refusal(r) == Some(Refusal::NotFound("fiscal year "@ + id_text(id))),
        Some(y) => r is Ok && shows_year(r->Ok_0, y, periods),
    }
}

pub open spec fn shows_years(rows: Seq<FiscalYearView>, years: Seq<Year>, periods: Seq<Period>) -> bool {
    &&& rows.len() == years.len()
    &&& forall|i: int| 0 <= i < rows.len() ==> shows_year(#[trigger] rows[i], years[i], periods)
}

impl FiscalService {
    fn find_year_view(&self, id: u128) -> (r: Result<FiscalYearView, Error>)
        ensures
            is_year_view(r, self.years@, self.periods@, id),
    {
        let found = find(&self.years, Ghost(year_id(id)), |x: &Year| -> (b: bool)
            ensures
                b == year_id(id)(*x),
            { x.id == id });
        match found {
            Some(i) => Ok(build_year_view(&self.years[i], &self.periods)),
            None => {
                let shown = show_id(id);
                Err(Error::NotFound(cat2("fiscal year ", shown.as_str())))
            },
        }
    }

    /// Every year with its periods, the one that starts last first.
    pub fn list(&self) -> (r: Vec<FiscalYearView>)
        ensures
            exists|rows: Seq<FiscalYearView>|
                #[trigger] shows_years(rows, self.years@, self.periods@) && r@ == arranged(rows),
    {
        let mut rows: Vec<FiscalYearView> = Vec::new();
        let mut i: usize = 0;
        while i < self.years.len()
            invariant
                i <= self.years.len(),
                rows@.len() == i,
                forall|j: int|
                    0 <= j < i ==> shows_year(#[trigger] rows@[j], self.years@[j], self.periods@),
            decreases self.years.len() - i,
        {
            rows.push(build_year_view(&self.years[i], &self.periods));
            i = i + 1;
        }
        assert(shows_years(rows@, self.years@, self.periods@));
        arrange(rows)
    }
}

/// The periods after the one with that id has moved.
pub open spec fn after_move(periods: Seq<Period>, id: u128, to: PeriodStatus) -> Seq<Period> {
    match first_from(periods, has_id(id), 0) {
        None => periods,
        Some(i) => periods.update(i, (Period { status: to, ..periods[i] })),
    }
}

/// Whether a service has moved the period with that id, or refused to.
pub open spec fn is_moved(
    r: Result<FiscalYearView, Error>,
    before: FiscalService,
    after: FiscalService,
    id: u128,
    to: PeriodStatus,
) -> bool {
    match moved_by_id(before.periods@, id, to) {
        Err(why) => refusal(r) == Some(why) && after == before,
        Ok(_) => {
            &&& after.years == before.years
            &&& after.periods@ == after_move(before.periods@, id, to)
            &&& is_year_view(
                r,
                after.years@,
                after.periods@,
                (first_where(before.periods@, has_id(id))->0).fiscal_year_id,
            )
        },
    }
}

impl FiscalService {
    /// Close a period that is open.
    pub fn close_period(&mut self, id: u128) -> (r: Result<FiscalYearView, Error>)
        ensures
            is_moved(r, *old(self), *final(self), id, PeriodStatus::Closed),
    {
        self.transition(id, PeriodStatus::Open, PeriodStatus::Closed)
    }

    /// Reopen a period that is closed; a locked one stays locked.
    pub fn reopen_period(&mut self, id: u128) -> (r: Result<FiscalYearView, Error>)
        ensures
            is_moved(r, *old(self), *final(self), id, PeriodStatus::Open),
    {
        self.transition(id, PeriodStatus::Closed, PeriodStatus::Open)
    }

    /// Lock a period that is closed, for good.
    pub fn lock_period(&mut self, id: u128) -> (r: Result<FiscalYearView, Error>)
        ensures
            is_moved(r, *old(self), *final(self), id, PeriodStatus::Locked),
    {
        self.transition(id, PeriodStatus::Closed, PeriodStatus::Locked)
    }

    fn position(&self, id: u128) -> (r: Option<usize>)
        ensures
            match r {
                Some(i) => i < self.periods@.len() && first_from(self.periods@, has_id(id), 0)
                    == Some(i as int),
                None => first_from(self.periods@, has_id(id), 0) is None,
            },
    {
        find(&self.periods, Ghost(has_id(id)), |x: &Period| -> (b: bool)
            ensures
                b == has_id(id)(*x),
            { x.id == id })
    }

    fn transition(&mut self, id: u128, from: PeriodStatus, to: PeriodStatus) -> (r: Result<
        FiscalYearView,
        Error,
    >)
        requires
            forall|s: PeriodStatus| may_move(s, to) <==> s == from,
        ensures
            is_moved(r, *old(self), *final(self), id, to),
    {
        let i = match self.position(id) {
            Some(i) => i,
            None => {
                let shown = show_id(id);
                return Err(Error::NotFound(cat2("fiscal period ", shown.as_str())));
            },
        };
        let current = self.periods[i].status;
        if current != from {
            let verb = match to {
                PeriodStatus::Closed => "close",
                PeriodStatus::Open => "reopen",
                PeriodStatus::Locked => "lock",
            };
            return Err(
                Error::Validation(cat4("cannot ", verb, " a period that is ", current.as_str())),
            );
        }
        let year = self.periods[i].fiscal_year_id;
        let ghost before = self.periods@;
        let p = &mut self.periods[i];
        p.status = to;
        assert(self.periods@ =~= after_move(before, id, to));
        self.find_year_view(year)
    }
}

// ---------------------------------------------------------------------------
// Opening a year
// ---------------------------------------------------------------------------

/// Whether a period is the one with that number of a year that was just opened.
pub open spec fn is_period(p: Period, id: u128, year: u128, start: Day, number: int) -> bool {
    &&& p.id == id
    &&& p.fiscal_year_id == year
    &&& p.period_number == number
    &&& p.start_date@ == month_start(start, number - 1)
    &&& p.end_date@ == day_before(month_start(start, number))
    &&& p.name@ == month_text(month_start(start, number - 1))
    &&& p.status == PeriodStatus::Open
}

/// Whether periods are the twelve months of a year that was just opened.
pub open spec fn are_months(periods: Seq<Period>, ids: Seq<u128>, year: u128, start: Day) -> bool {
    &&& periods.len() == 12
    &&& forall|i: int|
        0 <= i < 12 ==> is_period(#[trigger] periods[i], ids[i], year, start, i + 1)
}

/// Why a year that starts on that day cannot be opened, where it cannot.
pub open spec fn year_refusal(periods: Seq<Period>, start: Day) -> Option<Refusal> {
    if start.2 != 1 {
        Some(Refusal::Validation("a fiscal year must start on the first day of a month"@))
    } else if overlapped(periods, start, day_before(month_start(start, 12))) {
        Some(Refusal::Conflict("this range overlaps an existing fiscal period"@))
    } else {
        None
    }
}

/// Whether a service has opened a year: the year and its months are added at
/// the end.
pub open spec fn has_opened(
    before: FiscalService,
    after: FiscalService,
    start: Day,
    name: Option<Seq<char>>,
    id: u128,
    period_ids: Seq<u128>,
) -> bool {
    let end = day_before(month_start(start, 12));
    let y = after.years@.last();
    let n = before.periods@.len() as int;
    &&& after.years@ == before.years@.push(y)
    &&& y.id == id
    &&& y.start_date@ == start
    &&& y.end_date@ == end
    &&& y.name@ == chosen_year_name(name, start, end)
    &&& after.periods@.len() == n + 12
    &&& after.periods@.take(n) == before.periods@
    &&& are_months(after.periods@.skip(n), period_ids, id, start)
}

impl FiscalService {
    fn overlaps_any(&self, from: Date, to: Date) -> (r: bool)
        ensures
            r == overlapped(self.periods@, from@, to@),
    {
        let mut i: usize = 0;
        while i < self.periods.len()
            invariant
                i <= self.periods.len(),
                forall|j: int| 0 <= j < i ==> !overlaps(#[trigger] self.periods@[j], from@, to@),
            decreases self.periods.len() - i,
        {
            let p = &self.periods[i];
            if !to.is_before(&p.start_date) && !p.end_date.is_before(&from) {
                assert(overlaps(self.periods@[i as int], from@, to@));
                return true;
            }
            i = i + 1;
        }
        false
    }

    fn add_months(&mut self, start_date: Date, year: u128, period_ids: &Vec<u128>)
        requires
            period_ids@.len() == 12,
            start_date@.0 < 262142,
        ensures
            final(self).years == old(self).years,
            final(self).periods@.len() == old(self).periods@.len() + 12,
            final(self).periods@.take(old(self).periods@.len() as int) == old(self).periods@,
            are_months(
                final(self).periods@.skip(old(self).periods@.len() as int),
                period_ids@,
                year,
                start_date@,
            ),
    {
        let ghost before = self.periods@;
        let ghost n = before.len() as int;
        let mut k: u32 = 1;
        while k <= 12
            invariant
                1 <= k <= 13,
                n == before.len(),
                period_ids@.len() == 12,
                start_date@.0 < 262142,
                self.years == old(self).years,
                self.periods@.len() == n + k - 1,
                forall|j: int| 0 <= j < n ==> #[trigger] self.periods@[j] == before[j],
                forall|j: int|
                    n <= j < n + k - 1 ==> is_period(
                        #[trigger] self.periods@[j],
                        period_ids@[j - n],
                        year,
                        start_date@,
                        j - n + 1,
                    ),
            decreases 13 - k,
        {
            let start = first_of_month_plus(start_date, k - 1);
            let end = month_end_before(start_date, k);
            self.periods.push(
                Period {
                    id: period_ids[(k - 1) as usize],
                    fiscal_year_id: year,
                    period_number: k as i32,
                    name: start.month_and_year(),
                    start_date: start,
                    end_date: end,
                    status: PeriodStatus::Open,
                },
            );
            k = k + 1;
        }
        proof {
            assert(self.periods@.take(n) =~= before);
            let added = self.periods@.skip(n);
            assert forall|i: int| 0 <= i < 12 implies is_period(
                #[trigger] added[i],
                period_ids@[i],
                year,
                start_date@,
                i + 1,
            ) by {
                assert(added[i] == self.periods@[n + i]);
            }
        }
    }

    /// Open a fiscal year of twelve monthly periods that starts on
    /// `start_date`, which must be the first day of a month and must not
    /// overlap a period that exists. Without a name the year is called by its
    /// calendar years.
    pub fn create_year(
        &mut self,
        start_date: Date,
        name: Option<String>,
        id: u128,
        period_ids: &Vec<u128>,
    ) -> (r: Result<FiscalYearView, Error>)
        requires
            period_ids@.len() == 12,
            start_date@.2 == 1 ==> start_date@.0 < 262142,
        ensures
            match year_refusal(old(self).periods@, start_date@) {
                Some(why) => refusal(r) == Some(why) && *final(self) == *old(self),
                None => has_opened(
                    *old(self),
                    *final(self),
                    start_date@,
                    opt_text(name),
                    id,
                    period_ids@,
                ) && r is Ok && is_year_view(r, final(self).years@, final(self).periods@, id),
            },
    {
        if start_date.day() != 1 {
            return Err(
                Error::Validation("a fiscal year must start on the first day of a month".to_owned()),
            );
        }
        let end_date = month_end_before(start_date, 12);
        if self.overlaps_any(start_date, end_date) {
            return Err(Error::Conflict("this range overlaps an existing fiscal period".to_owned()));
        }
        let name = match name {
            Some(n) => {
                let kept = trim(n.as_str());
                if kept.as_str().unicode_len() == 0 {
                    default_year_name(start_date, end_date)
                } else {
                    kept
                }
            },
            None => default_year_name(start_date, end_date),
        };
        self.years.push(Year { id, name, start_date, end_date });
        self.add_months(start_date, id, period_ids);
        proof {
            lemma_first_from(self.years@, year_id(id), 0);
            assert(year_id(id)(self.years@.last()));
        }
        self.find_year_view(id)
    }

    /// Open the calendar year of `today` where no fiscal year exists yet, so
    /// that a fresh set of books can be posted to. Says whether it did.
    pub fn ensure_current_year(&mut self, today: Date, id: u128, period_ids: &Vec<u128>) -> (r: Result<
        bool,
        Error,
    >)
        requires
            period_ids@.len() == 12,
            today@.0 < 262142,
        ensures
            if old(self).years@.len() > 0 {
                r == Ok::<bool, Error>(false) && *final(self) == *old(self)
            } else {
                match year_refusal(old(self).periods@, (today@.0, 1int, 1int)) {
                    Some(why) => refusal(r) == Some(why) && *final(self) == *old(self),
                    None => r == Ok::<bool, Error>(true) && has_opened(
                        *old(self),
                        *final(self),
                        (today@.0, 1int, 1int),
                        None,
                        id,
                        period_ids@,
                    ),
                }
            },
    {
        if self.years.len() > 0 {
            return Ok(false);
        }
        let year: i32 = today.year();
        let start = match Date::from_ymd(year, 1, 1) {
            Some(d) => d,
            None => {
                assert(false);
                today
            },
        };
        match self.create_year(start, None, id, period_ids) {
            Ok(_) => Ok(true),
            Err(e) => Err(e),
        }
    }
}

// ---------------------------------------------------------------------------
// Laws
// ---------------------------------------------------------------------------

/// The twelve periods of a year follow each other without a gap or an overlap:
/// each ends the day before the next begins, the first begins with the year
/// and the last ends with it.
pub proof fn periods_are_contiguous(periods: Seq<Period>, ids: Seq<u128>, year: u128, start: Day)
    requires
        is_date(start),
        start.2 == 1,
        are_months(periods, ids, year, start),
    ensures
        periods[0].start_date@ == start,
        periods[11].end_date@ == day_before(month_start(start, 12)),
        forall|i: int, j: int|
            #![trigger periods[i], periods[j]]
            0 <= i < 12 && j == i + 1 && j < 12 ==> day_number(periods[i].end_date@) + 1
                == day_number(periods[j].start_date@) && earlier(
                periods[i].end_date@,
                periods[j].start_date@,
            ),
{
    assert(is_period(periods[0], ids[0], year, start, 1));
    assert(is_period(periods[11], ids[11], year, start, 12));
    assert forall|i: int, j: int|
        #![trigger periods[i], periods[j]]
        0 <= i < 12 && j == i + 1 && j < 12 implies day_number(periods[i].end_date@) + 1
        == day_number(periods[j].start_date@) && earlier(
        periods[i].end_date@,
        periods[j].start_date@,
    ) by {
        assert(is_period(periods[i], ids[i], year, start, i + 1));
        assert(is_period(periods[j], ids[j], year, start, j + 1));
        lemma_day_before(month_start(start, j));
    }
}

/// A locked period stays locked: no move leads out of it.
pub proof fn locked_is_permanent(periods: Seq<Period>, id: u128, to: PeriodStatus)
    requires
        first_where(periods, has_id(id)) matches Some(p) && p.status == PeriodStatus::Locked,
    ensures
        moved_by_id(periods, id, to) is Err,
{
}

/// Closing and reopening a period leaves every period as it was.
pub proof fn reopening_undoes_closing(periods: Seq<Period>, id: u128)
    requires
        moved_by_id(periods, id, PeriodStatus::Closed) is Ok,
    ensures
        ({
            let closed = after_move(periods, id, PeriodStatus::Closed);
            &&& moved_by_id(closed, id, PeriodStatus::Open) is Ok
            &&& after_move(closed, id, PeriodStatus::Open) == periods
        }),
{
    let closed = after_move(periods, id, PeriodStatus::Closed);
    lemma_first_from(periods, has_id(id), 0);
    lemma_first_from(closed, has_id(id), 0);
    let i = first_from(periods, has_id(id), 0)->0;
    assert(has_id(id)(closed[i]));
    let k = first_from(closed, has_id(id), 0)->0;
    assert(has_id(id)(closed[k]));
    assert(has_id(id)(periods[k]));
    assert(k == i);
    assert(after_move(closed, id, PeriodStatus::Open) =~= periods);
}

proof fn lemma_opened_covers(
    before: Seq<Period>,
    after: Seq<Period>,
    ids: Seq<u128>,
    year: u128,
    start: Day,
    d: Day,
    n: int,
)
    requires
        year_refusal(before, start) is None,
        after.len() == before.len() + 12,
        after.take(before.len() as int) == before,
        are_months(after.skip(before.len() as int), ids, year, start),
        !earlier(d, start),
        !earlier(day_before(month_start(start, 12)), d),
        0 <= n,
    ensures
        first_cover(after, d, n) matches Some(s) ==> s == PeriodStatus::Open,
    decreases after.len() - n,
{
    if n < after.len() {
        if covers(after[n], d) {
            if n < before.len() {
                assert(before[n] == after.take(before.len() as int)[n]);
                assert(overlaps(before[n], start, day_before(month_start(start, 12))));
            } else {
                let i = n - before.len();
                let months = after.skip(before.len() as int);
                assert(months[i] == after[n]);
                assert(is_period(months[i], ids[i], year, start, i + 1));
            }
        } else {
            lemma_opened_covers(before, after, ids, year, start, d, n + 1);
        }
    }
}

/// A year that was just opened can be posted to on each of its days.
pub proof fn opened_years_can_be_posted_to(
    before: FiscalService,
    after: FiscalService,
    start: Day,
    name: Option<Seq<char>>,
    id: u128,
    period_ids: Seq<u128>,
    d: Day,
)
    requires
        year_refusal(before.periods@, start) is None,
        has_opened(before, after, start, name, id, period_ids),
        !earlier(d, start),
        !earlier(day_before(month_start(start, 12)), d),
    ensures
        open_for_post(after.periods@, d),
{
    lemma_opened_covers(before.periods@, after.periods@, period_ids, id, start, d, 0);
}

/// Without a calendar every date can be posted to.
pub proof fn no_calendar_no_constraint(d: Day)
    ensures
        open_for_post(Seq::empty(), d),
{
}

/// Whether a day lies between two others, both included.
pub open spec fn between(d: Day, from: Day, to: Day) -> bool {
    day_number(from) <= day_number(d) <= day_number(to)
}

/// Whether periods begin and end on days of the calendar.
pub open spec fn are_dated(periods: Seq<Period>) -> bool {
    forall|i: int|
        0 <= i < periods.len() ==> is_date((#[trigger] periods[i]).start_date@) && is_date(
            periods[i].end_date@,
        )
}

proof fn lemma_covers(p: Period, d: Day)
    requires
        is_date(p.start_date@),
        is_date(p.end_date@),
        is_date(d),
    ensures
        covers(p, d) == between(d, p.start_date@, p.end_date@),
{
    lemma_day_number_orders(d, p.start_date@);
    lemma_day_number_orders(p.start_date@, d);
    lemma_day_number_orders(d, p.end_date@);
    lemma_day_number_orders(p.end_date@, d);
}

proof fn lemma_first_cover(periods: Seq<Period>, d: Day, k: int, from: int)
    requires
        are_dated(periods),
        is_date(d),
        0 <= from,
        forall|i: int|
            0 <= i < periods.len() && i != k ==> !between(
                d,
                (#[trigger] periods[i]).start_date@,
                periods[i].end_date@,
            ),
        0 <= k < periods.len() ==> from <= k && between(
            d,
            periods[k].start_date@,
            periods[k].end_date@,
        ),
    ensures
        first_cover(periods, d, from) == if 0 <= k < periods.len() {
            Some(periods[k].status)
        } else {
            None
        },
    decreases periods.len() - from,
{
    if from < periods.len() {
        lemma_covers(periods[from], d);
        if from != k {
            lemma_first_cover(periods, d, k, from + 1);
        }
    }
}

/// Only an open period takes postings, on each of its days from the first to the last:
/// on a day that one period holds and no other, posting is allowed exactly where
/// that period is open.
pub proof fn postings_land_in_open_periods(periods: Seq<Period>, d: Day, k: int)
    requires
        are_dated(periods),
        is_date(d),
        0 <= k < periods.len(),
        between(d, periods[k].start_date@, periods[k].end_date@),
        forall|i: int|
            0 <= i < periods.len() && i != k ==> !between(
                d,
                (#[trigger] periods[i]).start_date@,
                periods[i].end_date@,
            ),
    ensures
        open_for_post(periods, d) <==> periods[k].status == PeriodStatus::Open,
{
    lemma_first_cover(periods, d, k, 0);
}

/// A day that no period holds is not constrained.
pub proof fn days_outside_every_period_are_free(periods: Seq<Period>, d: Day)
    requires
        are_dated(periods),
        is_date(d),
        forall|i: int|
            0 <= i < periods.len() ==> !between(
                d,
                (#[trigger] periods[i]).start_date@,
                periods[i].end_date@,
            ),
    ensures
        open_for_post(periods, d),
{
    lemma_first_cover(periods, d, -1, 0);
}

/// A year that is opened shares no day with a period that there is already.
pub proof fn opened_years_share_no_day(periods: Seq<Period>, start: Day, d: Day, k: int)
    requires
        are_dated(periods),
        is_date(start),
        is_date(day_before(month_start(start, 12))),
        year_refusal(periods, start) is None,
        is_date(d),
        between(d, start, day_before(month_start(start, 12))),
        0 <= k < periods.len(),
    ensures
        !between(d, periods[k].start_date@, periods[k].end_date@),
{
    let p = periods[k];
    let end = day_before(month_start(start, 12));
    assert(!overlaps(p, start, end));
    lemma_day_number_orders(end, p.start_date@);
    lemma_day_number_orders(p.end_date@, start);
}

/// A period is closed while it is open, and only once it is closed is it reopened or locked:
/// no other move is made.
pub proof fn periods_move_one_step_at_a_time(current: PeriodStatus, to: PeriodStatus)
    ensures
        moved(current, to) is Ok <==> {
            ||| current == PeriodStatus::Open && to == PeriodStatus::Closed
            ||| current == PeriodStatus::Closed && to == PeriodStatus::Open
            ||| current == PeriodStatus::Closed && to == PeriodStatus::Locked
        },
        moved(current, to) matches Ok(next) ==> next == to,
{
}

/// A year is open as long as one of its periods is, and locked only once all of them are.
pub proof fn years_follow_their_periods(periods: Seq<Period>, k: int)
    requires
        0 <= k < periods.len(),
    ensures
        periods[k].status == PeriodStatus::Open ==> year_status(periods) == PeriodStatus::Open,
        year_status(periods) == PeriodStatus::Locked ==> periods[k].status == PeriodStatus::Locked,
        year_status(periods) == PeriodStatus::Closed ==> periods[k].status != PeriodStatus::Open,
        periods.len() == 1 ==> year_status(periods) == periods[k].status,
{
}

} // verus!
