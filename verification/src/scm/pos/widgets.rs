//! The figures of the dashboard of the point of sale. A day is one in Greenwich,
//! as in the reports.

use super::register::{find_register, register_id, Model as Register};
use super::sale::{Book, OrderFacts, OrderKind, OrderStatus, SaleService};
use super::session::{status_text, Session, SessionStatus};
use super::reports::queries::items::ItemSalesRow;
use super::reports::queries::sold_within;
use super::reports::reflection::{day_number_at, windows_hold_whole_days};
use crate::clock::{moment_text, show_moment, Span};
use crate::date::{day_number, opt_day, Date, Day};
use crate::decimal::{negated, opt, over, rounded, zero, Decimal, Num};
use crate::error::{in_range, refusal, Error, Refusal};
use crate::search::first_where;
use crate::sums::{
    counted, counted_to, difference_of, lemma_counted_push, lemma_picked_push, lemma_total_push,
    lemma_worth_agrees, lemma_worth_negated, picked, picked_to, rounded_of, total, worth_of,
};
use crate::text::{opt_text, texts};
use crate::tile::{entries, number_or_dash, show_number, Entry as Listed, ListItem};
use super::takings::its_total;
use vstd::prelude::*;

verus! {

/// Whether an order of that kind was captured on a day.
pub open spec fn on_day(kind: OrderKind, day: Day) -> spec_fn(OrderFacts) -> bool {
    |o: OrderFacts| sold_within(o, Some(day), Some(day)) && o.kind == kind
}

/// What the sales, or the refunds, of a day come to.
pub open spec fn day_total(book: Book, kind: OrderKind, day: Day) -> Option<Num> {
    total(picked(book.orders, on_day(kind, day), its_total()))
}

/// What a day took, net of refunds.
pub open spec fn day_net(book: Book, day: Day) -> Option<Num> {
    difference_of(
        day_total(book, OrderKind::Sale, day),
        day_total(book, OrderKind::Refund, day),
    )
}

fn sum_day(book: &SaleService, kind: OrderKind, day: Date) -> (r: (Option<Decimal>, usize))
    ensures
        opt(r.0) == day_total(book@, kind, day@),
        r.1 == counted(book@.orders, on_day(kind, day@)),
{
    let span = Span { from: Some(day), to: Some(day) };
    let ghost all = book@.orders;
    let ghost p = on_day(kind, day@);
    let mut sum: Option<Decimal> = Some(Decimal::zero());
    let mut many: usize = 0;
    let mut i: usize = 0;
    while i < book.orders.len()
        invariant
            i <= book.orders.len(),
            many <= i,
            all == book@.orders,
            p == on_day(kind, day@),
            opt_day(span.from) == Some(day@),
            opt_day(span.to) == Some(day@),
            opt(sum) == total(picked_to(all, p, its_total(), i as nat)),
            many == counted_to(all, p, i as nat),
        decreases book.orders.len() - i,
    {
        let o = &book.orders[i];
        assert(all[i as int] == o@);
        if o.status == OrderStatus::Captured && span.holds(o.sold_at) && o.kind == kind {
            proof {
                assert(p(all[i as int]));
                lemma_total_push(picked_to(all, p, its_total(), i as nat), o.total@);
            }
            many = many + 1;
            sum = match sum {
                Some(s) => s.checked_add(o.total),
                None => None,
            };
        } else {
            assert(!p(all[i as int]));
        }
        i = i + 1;
    }
    (sum, many)
}

/// The takings of a day, with how many sales and refunds it saw.
#[derive(Clone, Copy, Debug)]
pub struct DayTakings {
    pub net: Decimal,
    pub sales: usize,
    pub refunds: usize,
}

/// The takings of a day, net of refunds.
pub fn takings_on(book: &SaleService, day: Date) -> (r: Result<DayTakings, Error>)
    ensures
        match day_net(book@, day@) {
            Some(n) => r is Ok && r->Ok_0.net@ == n && r->Ok_0.sales == counted(
                book@.orders,
                on_day(OrderKind::Sale, day@),
            ) && r->Ok_0.refunds == counted(book@.orders, on_day(OrderKind::Refund, day@)),
            None => refusal(r) == Some(Refusal::Overflow),
        },
{
    let (sold, sales) = sum_day(book, OrderKind::Sale, day);
    let (back, refunds) = sum_day(book, OrderKind::Refund, day);
    let sold = in_range(sold)?;
    let back = in_range(back)?;
    let net = in_range(sold.checked_sub(back))?;
    Ok(DayTakings { net, sales, refunds })
}

/// The average sale of a day, to the cent; zero where nothing sold.
pub open spec fn average_basket(book: Book, day: Day) -> Option<Num> {
    let many = counted(book.orders, on_day(OrderKind::Sale, day));
    match day_total(book, OrderKind::Sale, day) {
        None => None,
        Some(gross) => if many == 0 {
            Some(zero())
        } else {
            rounded_of(over(gross, (many as int, 0nat)), 2)
        },
    }
}

/// The average sale of a day, and how many there were.
pub fn basket_on(book: &SaleService, day: Date) -> (r: Result<(Decimal, usize), Error>)
    ensures
        match average_basket(book@, day@) {
            Some(n) => r is Ok && (r->Ok_0).0@ == n && (r->Ok_0).1 == counted(
                book@.orders,
                on_day(OrderKind::Sale, day@),
            ),
            None => refusal(r) == Some(Refusal::Overflow),
        },
{
    let (gross, many) = sum_day(book, OrderKind::Sale, day);
    let gross = in_range(gross)?;
    if many == 0 {
        return Ok((Decimal::zero(), many));
    }
    let quotient = in_range(gross.checked_div(Decimal::from_count(many)))?;
    Ok((quotient.round_dp(2), many))
}

// ---------------------------------------------------------------------------
// The week
// ---------------------------------------------------------------------------

/// Whether an order was captured on a day.
pub open spec fn captured_on(day: Day) -> spec_fn(OrderFacts) -> bool {
    |o: OrderFacts| sold_within(o, Some(day), Some(day))
}

/// What an order takes in, or gives back.
pub open spec fn signed_total() -> spec_fn(OrderFacts) -> Num {
    |o: OrderFacts|
        if o.kind == OrderKind::Sale {
            o.total
        } else {
            negated(o.total)
        }
}

/// What a day took, order by order.
pub open spec fn day_flow(book: Book, day: Day) -> Option<Num> {
    total(picked(book.orders, captured_on(day), signed_total()))
}

fn flow_on(book: &SaleService, day: Date) -> (r: Option<Decimal>)
    ensures
        opt(r) == day_flow(book@, day@),
{
    let span = Span { from: Some(day), to: Some(day) };
    let ghost all = book@.orders;
    let ghost p = captured_on(day@);
    let ghost f = signed_total();
    let mut sum: Option<Decimal> = Some(Decimal::zero());
    let mut i: usize = 0;
    while i < book.orders.len()
        invariant
            i <= book.orders.len(),
            all == book@.orders,
            p == captured_on(day@),
            f == signed_total(),
            opt_day(span.from) == Some(day@),
            opt_day(span.to) == Some(day@),
            opt(sum) == total(picked_to(all, p, f, i as nat)),
        decreases book.orders.len() - i,
    {
        let o = &book.orders[i];
        assert(all[i as int] == o@);
        if o.status == OrderStatus::Captured && span.holds(o.sold_at) {
            let amount = if o.kind == OrderKind::Sale {
                o.total
            } else {
                o.total.negate()
            };
            proof {
                assert(p(all[i as int]));
                assert(f(all[i as int]) == amount@);
                lemma_total_push(picked_to(all, p, f, i as nat), amount@);
            }
            sum = match sum {
                Some(s) => s.checked_add(amount),
                None => None,
            };
        } else {
            assert(!p(all[i as int]));
        }
        i = i + 1;
    }
    sum
}

/// What each of the days took, in their order.
pub fn week_trend(book: &SaleService, days: &Vec<Date>) -> (r: Result<Vec<Decimal>, Error>)
    ensures
        match r {
            Ok(list) => list@.len() == days@.len() && forall|i: int|
                0 <= i < days@.len() ==> day_flow(book@, days@[i]@) == Some(
                    (#[trigger] list@[i])@,
                ),
            Err(e) => e@ == Refusal::Overflow && exists|i: int|
                0 <= i < days@.len() && day_flow(book@, (#[trigger] days@[i])@) is None,
        },
{
    let mut out: Vec<Decimal> = Vec::new();
    let mut i: usize = 0;
    while i < days.len()
        invariant
            i <= days.len(),
            out@.len() == i,
            forall|k: int|
                0 <= k < i ==> day_flow(book@, days@[k]@) == Some((#[trigger] out@[k])@),
        decreases days.len() - i,
    {
        match flow_on(book, days[i]) {
            Some(n) => {
                out.push(n);
            },
            None => {
                assert(day_flow(book@, days@[i as int]@) is None);
                return Err(Error::Overflow);
            },
        }
        i = i + 1;
    }
    Ok(out)
}

/// The first five of the items that sold.
pub open spec fn best_sellers(rows: Seq<ItemSalesRow>) -> Seq<Listed> {
    Seq::new(
        if rows.len() < 5 {
            rows.len()
        } else {
            5
        },
        |k: int| (rows[k].name@, rows[k].sku@, rows[k].gross@),
    )
}

/// The five items that took most; the rows come with what took most first.
pub fn top_items(rows: &Vec<ItemSalesRow>) -> (r: Vec<ListItem>)
    ensures
        entries(r@) == best_sellers(rows@),
{
    let mut out: Vec<ListItem> = Vec::new();
    let mut i: usize = 0;
    while i < rows.len() && i < 5
        invariant
            i <= rows.len(),
            i <= 5,
            out@.len() == i,
            forall|k: int|
                0 <= k < i ==> (#[trigger] out@[k])@ == (
                    rows@[k].name@,
                    rows@[k].sku@,
                    rows@[k].gross@,
                ),
        decreases rows.len() - i,
    {
        let row = &rows[i];
        out.push(
            ListItem { title: row.name.clone(), subtitle: row.sku.clone(), value: row.gross },
        );
        i = i + 1;
    }
    assert(entries(out@) =~= best_sellers(rows@));
    out
}

// ---------------------------------------------------------------------------
// Sessions on the floor
// ---------------------------------------------------------------------------

/// Whether a session is still on the floor: open, or stuck closing.
pub open spec fn on_floor(s: Session) -> bool {
    s.status != SessionStatus::Closed
}

/// The row of a session.
pub open spec fn session_cells(s: Session, registers: Seq<Register>) -> Seq<Seq<char>> {
    seq![
        number_or_dash(opt_text(s.number)),
        match first_where(registers, register_id(s.register_id)) {
            Some(r) => r.code@,
            None => ""@,
        },
        moment_text(s.opened_at as int)->0,
        status_text(s.status),
    ]
}

/// The rows of those of the first `n` sessions that are still on the floor;
/// `None` where no calendar has the day that one was opened on.
pub open spec fn floor_to(sessions: Seq<Session>, registers: Seq<Register>, n: nat) -> Option<
    Seq<Seq<Seq<char>>>,
>
    decreases n,
{
    if n == 0 {
        Some(Seq::empty())
    } else {
        let s = sessions[n - 1];
        match floor_to(sessions, registers, (n - 1) as nat) {
            None => None,
            Some(rest) => if !on_floor(s) {
                Some(rest)
            } else if moment_text(s.opened_at as int) is None {
                None
            } else {
                Some(rest.push(session_cells(s, registers)))
            },
        }
    }
}

proof fn lemma_floor_stops(sessions: Seq<Session>, registers: Seq<Register>, i: nat, n: nat)
    requires
        i <= n,
        floor_to(sessions, registers, i) is None,
    ensures
        floor_to(sessions, registers, n) is None,
    decreases n,
{
    if i < n {
        lemma_floor_stops(sessions, registers, i, (n - 1) as nat);
    }
}

pub open spec fn all_cells(rows: Seq<Vec<String>>) -> Seq<Seq<Seq<char>>> {
    rows.map_values(|r: Vec<String>| texts(r@))
}

/// The sessions that are still on the floor, as rows of a table.
pub fn open_sessions(sessions: &Vec<Session>, registers: &Vec<Register>) -> (r: Result<
    Vec<Vec<String>>,
    Error,
>)
    ensures
        match floor_to(sessions@, registers@, sessions@.len()) {
            Some(rows) => r is Ok && all_cells(r->Ok_0@) == rows,
            None => refusal(r) == Some(Refusal::Overflow),
        },
{
    let mut out: Vec<Vec<String>> = Vec::new();
    assert(all_cells(out@) =~= Seq::empty());
    let mut i: usize = 0;
    while i < sessions.len()
        invariant
            i <= sessions.len(),
            floor_to(sessions@, registers@, i as nat) == Some(all_cells(out@)),
        decreases sessions.len() - i,
    {
        let s = &sessions[i];
        proof {
            if floor_to(sessions@, registers@, (i + 1) as nat) is None {
                lemma_floor_stops(sessions@, registers@, (i + 1) as nat, sessions@.len());
            }
        }
        if s.status != SessionStatus::Closed {
            let opened = in_range(show_moment(s.opened_at))?;
            let code = match find_register(registers, s.register_id) {
                Some(k) => registers[k].code.clone(),
                None => "".to_owned(),
            };
            let ghost held = all_cells(out@);
            let cells = vec![show_number(&s.number), code, opened, s.status.as_str().to_owned()];
            assert(texts(cells@) =~= session_cells(*s, registers@));
            out.push(cells);
            assert(all_cells(out@) =~= held.push(texts(cells@)));
        }
        i = i + 1;
    }
    Ok(out)
}

// ---------------------------------------------------------------------------
// Laws
// ---------------------------------------------------------------------------

/// A day takes what its orders take: an order counts on the day that its moment falls into,
/// where it is captured, as a sale or as a refund, with its total; a voided order, and
/// one of another day, counts on none. What the trend shows of a day is its sales less
/// its refunds.
pub proof fn a_day_takes_what_its_orders_take(
    orders: Seq<OrderFacts>,
    o: OrderFacts,
    kind: OrderKind,
    day: Day,
)
    ensures
        ({
            let p = on_day(kind, day);
            let there = o.status == OrderStatus::Captured && o.kind == kind && day_number_at(
                o.sold_at as int,
            ) == day_number(day);
            &&& there ==> counted(orders.push(o), p) == counted(orders, p) + 1
            &&& there ==> picked(orders.push(o), p, its_total()) == picked(
                orders,
                p,
                its_total(),
            ).push(o.total)
            &&& !there ==> counted(orders.push(o), p) == counted(orders, p)
            &&& !there ==> picked(orders.push(o), p, its_total()) == picked(orders, p, its_total())
        }),
        worth_of(picked(orders, captured_on(day), signed_total())) == worth_of(
            picked(orders, on_day(OrderKind::Sale, day), its_total()),
        ) - worth_of(picked(orders, on_day(OrderKind::Refund, day), its_total())),
{
    let p = on_day(kind, day);
    windows_hold_whole_days(o.sold_at as int, Some(day), Some(day));
    lemma_counted_push(orders, o, p, orders.len());
    lemma_picked_push(orders, o, p, its_total());
    lemma_flow(orders, day, orders.len());
}

proof fn lemma_flow(orders: Seq<OrderFacts>, day: Day, n: nat)
    requires
        n <= orders.len(),
    ensures
        worth_of(picked_to(orders, captured_on(day), signed_total(), n)) == worth_of(
            picked_to(orders, on_day(OrderKind::Sale, day), its_total(), n),
        ) - worth_of(picked_to(orders, on_day(OrderKind::Refund, day), its_total(), n)),
    decreases n,
{
    if n > 0 {
        lemma_flow(orders, day, (n - 1) as nat);
        let o = orders[n - 1];
        let x = picked_to(orders, captured_on(day), signed_total(), (n - 1) as nat);
        let y = picked_to(orders, on_day(OrderKind::Sale, day), its_total(), (n - 1) as nat);
        let z = picked_to(orders, on_day(OrderKind::Refund, day), its_total(), (n - 1) as nat);
        let v = signed_total()(o);
        lemma_worth_agrees(x.push(v), x, x.len());
        lemma_worth_agrees(y.push(o.total), y, y.len());
        lemma_worth_agrees(z.push(o.total), z, z.len());
        lemma_worth_negated(o.total);
    }
}

/// The average sale of a day is what its sales come to, divided by how many there were, to
/// the cent; a day without sales has an average of nothing.
pub proof fn the_average_basket_is_the_sales_over_their_number(book: Book, day: Day)
    ensures
        ({
            let sale = on_day(OrderKind::Sale, day);
            let many = counted(book.orders, sale);
            let sold = total(picked(book.orders, sale, its_total()));
            &&& sold is Some && many == 0 ==> average_basket(book, day) == Some(zero())
            &&& sold is Some && many > 0 ==> (match over(sold->0, (many as int, 0)) {
                Some(q) => average_basket(book, day) == Some(rounded(q, 2)),
                None => average_basket(book, day) is None,
            })
        }),
{
}

} // verus!
