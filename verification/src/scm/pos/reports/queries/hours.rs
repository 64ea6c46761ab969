//! The shape of the day: takings per hour.

use super::{sold_within, PosQueries};
use crate::clock::{hour_at, hour_of, Span};
use crate::date::{opt_day, Day};
use crate::decimal::{opt, Decimal, Num};
use crate::error::{in_range, refusal, Error, Refusal};
use crate::scm::pos::sale::{Book, OrderFacts, OrderKind, OrderStatus, SaleService};
use crate::sums::{counted, counted_to, difference_of, lemma_total_push, picked, picked_to, total};
use crate::scm::pos::takings::its_total;
use vstd::prelude::*;

verus! {

/// One hour of the day across the window.
#[derive(Debug)]
pub struct HourlyRow {
    pub hour: u64,
    pub sales: usize,
    pub refunds: usize,
    pub gross_sales: Decimal,
    pub refund_total: Decimal,
    pub net_total: Decimal,
}

/// What an hour says.
pub struct HourFacts {
    pub hour: nat,
    pub sales: nat,
    pub refunds: nat,
    pub gross_sales: Num,
    pub refund_total: Num,
    pub net_total: Num,
}

impl View for HourlyRow {
    type V = HourFacts;

    open spec fn view(&self) -> HourFacts {
        HourFacts {
            hour: self.hour as nat,
            sales: self.sales as nat,
            refunds: self.refunds as nat,
            gross_sales: self.gross_sales@,
            refund_total: self.refund_total@,
            net_total: self.net_total@,
        }
    }
}

#[derive(Debug)]
pub struct HourlyView {
    pub rows: Vec<HourlyRow>,
    pub span: Span,
    /// The minutes east of Greenwich that the hours are counted in.
    pub tz_offset_minutes: i32,
}

/// Whether an order of that kind was captured in an hour of the window's days.
pub open spec fn in_hour(
    kind: OrderKind,
    hour: int,
    from: Option<Day>,
    to: Option<Day>,
    offset: int,
) -> spec_fn(OrderFacts) -> bool {
    |o: OrderFacts|
        sold_within(o, from, to) && o.kind == kind && hour_of(o.sold_at as int, offset) == hour
}

/// The takings of an hour. The outer level is absent where a figure leaves the
/// range, the inner one for an hour in which nothing happened.
pub open spec fn hour_row(
    book: Book,
    hour: nat,
    from: Option<Day>,
    to: Option<Day>,
    offset: int,
) -> Option<Option<HourFacts>> {
    let sale = in_hour(OrderKind::Sale, hour as int, from, to, offset);
    let refund = in_hour(OrderKind::Refund, hour as int, from, to, offset);
    let sales = counted(book.orders, sale);
    let refunds = counted(book.orders, refund);
    let sold = total(picked(book.orders, sale, its_total()));
    let back = total(picked(book.orders, refund, its_total()));
    if sales == 0 && refunds == 0 {
        Some(None)
    } else {
        match (sold, back, difference_of(sold, back)) {
            (Some(gross_sales), Some(refund_total), Some(net_total)) => Some(
                Some(
                    HourFacts { hour, sales, refunds, gross_sales, refund_total, net_total },
                ),
            ),
            _ => None,
        }
    }
}

/// The hours before `n` in which something happened, with their takings.
pub open spec fn hour_rows_to(
    book: Book,
    from: Option<Day>,
    to: Option<Day>,
    offset: int,
    n: nat,
) -> Option<Seq<HourFacts>>
    decreases n,
{
    if n == 0 {
        Some(Seq::empty())
    } else {
        match (
            hour_rows_to(book, from, to, offset, (n - 1) as nat),
            hour_row(book, (n - 1) as nat, from, to, offset),
        ) {
            (Some(rest), Some(Some(row))) => Some(rest.push(row)),
            (Some(rest), Some(None)) => Some(rest),
            _ => None,
        }
    }
}

proof fn lemma_hours_stop(
    book: Book,
    from: Option<Day>,
    to: Option<Day>,
    offset: int,
    i: nat,
    n: nat,
)
    requires
        i <= n,
        hour_rows_to(book, from, to, offset, i) is None,
    ensures
        hour_rows_to(book, from, to, offset, n) is None,
    decreases n,
{
    if i < n {
        lemma_hours_stop(book, from, to, offset, i, (n - 1) as nat);
    }
}

/// How many orders of a kind an hour saw, and what they come to.
fn sum_hour(book: &SaleService, kind: OrderKind, hour: u64, span: &Span, offset: i32) -> (r: (
    usize,
    Option<Decimal>,
))
    ensures
        ({
            let p = in_hour(
                kind,
                hour as int,
                opt_day(span.from),
                opt_day(span.to),
                offset as int,
            );
            r.0 == counted(book@.orders, p) && opt(r.1) == total(
                picked(book@.orders, p, its_total()),
            )
        }),
{
    let ghost all = book@.orders;
    let ghost p = in_hour(
        kind,
        hour as int,
        opt_day(span.from),
        opt_day(span.to),
        offset as int,
    );
    let mut many: usize = 0;
    let mut sum: Option<Decimal> = Some(Decimal::zero());
    let mut i: usize = 0;
    while i < book.orders.len()
        invariant
            i <= book.orders.len(),
            many <= i,
            all == book@.orders,
            p == in_hour(
                kind,
                hour as int,
                opt_day(span.from),
                opt_day(span.to),
                offset as int,
            ),
            many == counted_to(all, p, i as nat),
            opt(sum) == total(picked_to(all, p, its_total(), i as nat)),
        decreases book.orders.len() - i,
    {
        let o = &book.orders[i];
        assert(all[i as int] == o@);
        if o.status == OrderStatus::Captured && span.holds(o.sold_at) && o.kind == kind && hour_at(
            o.sold_at,
            offset,
        ) == hour {
            proof {
                assert(p(all[i as int]));
                lemma_total_push(picked_to(all, p, its_total(), i as nat), o.total@);
            }
            many = many + 1;
            sum = match sum {
                Some(s) => s.checked_add(o.total),
                None => None,
            };
        } else {
            assert(!p(all[i as int]));
        }
        i = i + 1;
    }
    (many, sum)
}

fn make_hour(book: &SaleService, hour: u64, span: &Span, offset: i32) -> (r: Result<
    Option<HourlyRow>,
    Error,
>)
    ensures
        match hour_row(
            book@,
            hour as nat,
            opt_day(span.from),
            opt_day(span.to),
            offset as int,
        ) {
            None => refusal(r) == Some(Refusal::Overflow),
            Some(None) => r is Ok && r->Ok_0 is None,
            Some(Some(f)) => r is Ok && r->Ok_0 is Some && r->Ok_0->0@ == f,
        },
{
    let (sales, sold) = sum_hour(book, OrderKind::Sale, hour, span, offset);
    let (refunds, back) = sum_hour(book, OrderKind::Refund, hour, span, offset);
    if sales == 0 && refunds == 0 {
        return Ok(None);
    }
    let gross_sales = in_range(sold)?;
    let refund_total = in_range(back)?;
    let net_total = in_range(gross_sales.checked_sub(refund_total))?;
    Ok(Some(HourlyRow { hour, sales, refunds, gross_sales, refund_total, net_total }))
}

impl PosQueries {
    /// The shape of the day: takings per hour of the day, summed across the
    /// window, the first hour first. Hours are counted that many minutes east
    /// of Greenwich.
    pub fn hourly(book: &SaleService, span: Span, tz_offset_minutes: i32) -> (r: Result<
        HourlyView,
        Error,
    >)
        ensures
            match hour_rows_to(
                book@,
                opt_day(span.from),
                opt_day(span.to),
                tz_offset_minutes as int,
                24,
            ) {
                None => refusal(r) == Some(Refusal::Overflow),
                Some(rows) => r is Ok && r->Ok_0.rows@.map_values(|h: HourlyRow| h@) == rows
                    && r->Ok_0.span == span && r->Ok_0.tz_offset_minutes == tz_offset_minutes,
            },
    {
        let ghost from = opt_day(span.from);
        let ghost to = opt_day(span.to);
        let ghost offset = tz_offset_minutes as int;
        let mut rows: Vec<HourlyRow> = Vec::new();
        assert(rows@.map_values(|h: HourlyRow| h@) =~= Seq::empty());
        let mut hour: u64 = 0;
        while hour < 24
            invariant
                hour <= 24,
                from == opt_day(span.from),
                to == opt_day(span.to),
                offset == tz_offset_minutes,
                hour_rows_to(book@, from, to, offset, hour as nat) == Some(
                    rows@.map_values(|h: HourlyRow| h@),
                ),
            decreases 24 - hour,
        {
            proof {
                if hour_rows_to(book@, from, to, offset, (hour + 1) as nat) is None {
                    lemma_hours_stop(book@, from, to, offset, (hour + 1) as nat, 24);
                }
            }
            if let Some(row) = make_hour(book, hour, &span, tz_offset_minutes)? {
                let ghost held = rows@.map_values(|h: HourlyRow| h@);
                rows.push(row);
                assert(rows@.map_values(|h: HourlyRow| h@) =~= held.push(row@));
            }
            hour = hour + 1;
        }
        Ok(HourlyView { rows, span, tz_offset_minutes })
    }
}

} // verus!
