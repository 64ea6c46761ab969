//! What a session took: computed once, and shared by its reports and its close.

use super::register::Model as Register;
use super::sale::{Book, OrderFacts, OrderKind, OrderStatus, PaymentFacts, SaleService};
use super::session::{
    find_session, no_session, session_id, CashMovement, DrawerKind, Session, SessionCount,
    SessionService, SessionStatus,
};
use crate::decimal::{limit, minus, opt, plus, worth, zero, Decimal, Num};
use crate::error::{in_range, refusal, Error, Refusal};
use crate::search::{find, first_from, first_where};
use crate::sums::{
    counted, counted_to, difference_of, kept_places, lemma_combined_exact, lemma_total_push, picked,
    picked_to, sum_of, total, within,
};
use crate::text::{copy_text, id_text, opt_text, same};
use vstd::prelude::*;

verus! {

// ---------------------------------------------------------------------------
// What is counted in
// ---------------------------------------------------------------------------

/// Whether an order of that kind stands in a session.
pub open spec fn stands(session: u128, kind: OrderKind) -> spec_fn(OrderFacts) -> bool {
    |o: OrderFacts|
        o.session_id == session && o.status == OrderStatus::Captured && o.kind == kind
}

pub open spec fn is_voided(session: u128) -> spec_fn(OrderFacts) -> bool {
    |o: OrderFacts| o.session_id == session && o.status == OrderStatus::Voided
}

pub open spec fn has_drifted(session: u128) -> spec_fn(OrderFacts) -> bool {
    |o: OrderFacts|
        o.session_id == session && o.status == OrderStatus::Captured && o.price_drift
}

pub open spec fn was_offline(session: u128) -> spec_fn(OrderFacts) -> bool {
    |o: OrderFacts|
        o.session_id == session && o.status == OrderStatus::Captured && o.captured_offline
}

pub open spec fn its_total() -> spec_fn(OrderFacts) -> Num {
    |o: OrderFacts| o.total
}

pub open spec fn its_tax() -> spec_fn(OrderFacts) -> Num {
    |o: OrderFacts| o.tax_total
}

pub open spec fn stands_with(session: u128, id: u128) -> spec_fn(OrderFacts) -> bool {
    |o: OrderFacts| o.id == id && o.session_id == session && o.status == OrderStatus::Captured
}

/// What kind of order stands in a session under an id, where one does.
pub open spec fn kind_in(orders: Seq<OrderFacts>, session: u128, id: u128) -> Option<OrderKind> {
    match first_where(orders, stands_with(session, id)) {
        Some(o) => Some(o.kind),
        None => None,
    }
}

/// Whether a payment was made by a tender, on an order of that kind.
pub open spec fn paid_by(
    orders: Seq<OrderFacts>,
    session: u128,
    kind: OrderKind,
    tender: Seq<char>,
) -> spec_fn(PaymentFacts) -> bool {
    |p: PaymentFacts| p.tender == tender && kind_in(orders, session, p.order_id) == Some(kind)
}

pub open spec fn its_amount() -> spec_fn(PaymentFacts) -> Num {
    |p: PaymentFacts| p.amount
}

pub open spec fn at_drawer(session: u128, kind: DrawerKind) -> spec_fn(CashMovement) -> bool {
    |m: CashMovement| m.session_id == session && m.kind == kind
}

pub open spec fn moved() -> spec_fn(CashMovement) -> Num {
    |m: CashMovement| m.amount@
}

/// What a tender took on the sales of a session, or gave on its refunds.
pub open spec fn tender_sum(book: Book, session: u128, kind: OrderKind, tender: Seq<char>) -> Option<
    Num,
> {
    total(picked(book.payments, paid_by(book.orders, session, kind, tender), its_amount()))
}

/// What the sales, or the refunds, of a session come to.
pub open spec fn order_sum(book: Book, session: u128, kind: OrderKind) -> Option<Num> {
    total(picked(book.orders, stands(session, kind), its_total()))
}

/// The tax inside the sales, or the refunds, of a session.
pub open spec fn tax_sum(book: Book, session: u128, kind: OrderKind) -> Option<Num> {
    total(picked(book.orders, stands(session, kind), its_tax()))
}

/// What was paid into the drawer of a session, or out of it.
pub open spec fn drawer_sum(drawer: Seq<CashMovement>, session: u128, kind: DrawerKind) -> Option<
    Num,
> {
    total(picked(drawer, at_drawer(session, kind), moved()))
}

// ---------------------------------------------------------------------------
// The money of a session
// ---------------------------------------------------------------------------

/// What each tender took, or gave.
#[derive(Clone, Copy, Debug)]
pub struct ByTender {
    pub cash: Decimal,
    pub mpesa: Decimal,
    pub card: Decimal,
}

/// Everything that the captured orders of one session add up to.
#[derive(Clone, Copy, Debug)]
pub struct SessionMoney {
    pub sales: ByTender,
    pub refunds: ByTender,
    pub gross_sales: Decimal,
    pub refund_total: Decimal,
    pub sales_tax: Decimal,
    pub refund_tax: Decimal,
    pub paid_in: Decimal,
    pub paid_out: Decimal,
    pub sales_count: usize,
    pub refunds_count: usize,
    pub voids_count: usize,
    pub drift_count: usize,
    pub offline_count: usize,
}

/// Whether amounts per tender are those of a session.
pub open spec fn are_tenders(t: ByTender, book: Book, session: u128, kind: OrderKind) -> bool {
    &&& tender_sum(book, session, kind, "cash"@) == Some(t.cash@)
    &&& tender_sum(book, session, kind, "mpesa"@) == Some(t.mpesa@)
    &&& tender_sum(book, session, kind, "card"@) == Some(t.card@)
}

/// Whether an amount is the money of a session.
pub open spec fn is_money(m: SessionMoney, book: Book, drawer: Seq<CashMovement>, session: u128) -> bool {
    &&& are_tenders(m.sales, book, session, OrderKind::Sale)
    &&& are_tenders(m.refunds, book, session, OrderKind::Refund)
    &&& order_sum(book, session, OrderKind::Sale) == Some(m.gross_sales@)
    &&& order_sum(book, session, OrderKind::Refund) == Some(m.refund_total@)
    &&& tax_sum(book, session, OrderKind::Sale) == Some(m.sales_tax@)
    &&& tax_sum(book, session, OrderKind::Refund) == Some(m.refund_tax@)
    &&& drawer_sum(drawer, session, DrawerKind::PaidIn) == Some(m.paid_in@)
    &&& drawer_sum(drawer, session, DrawerKind::PaidOut) == Some(m.paid_out@)
    &&& m.sales_count == counted(book.orders, stands(session, OrderKind::Sale))
    &&& m.refunds_count == counted(book.orders, stands(session, OrderKind::Refund))
    &&& m.voids_count == counted(book.orders, is_voided(session))
    &&& m.drift_count == counted(book.orders, has_drifted(session))
    &&& m.offline_count == counted(book.orders, was_offline(session))
}

pub open spec fn tenders_in_range(book: Book, session: u128, kind: OrderKind) -> bool {
    &&& tender_sum(book, session, kind, "cash"@) is Some
    &&& tender_sum(book, session, kind, "mpesa"@) is Some
    &&& tender_sum(book, session, kind, "card"@) is Some
}

/// Whether every sum of a session stays in range.
pub open spec fn money_in_range(book: Book, drawer: Seq<CashMovement>, session: u128) -> bool {
    &&& tenders_in_range(book, session, OrderKind::Sale)
    &&& tenders_in_range(book, session, OrderKind::Refund)
    &&& order_sum(book, session, OrderKind::Sale) is Some
    &&& order_sum(book, session, OrderKind::Refund) is Some
    &&& tax_sum(book, session, OrderKind::Sale) is Some
    &&& tax_sum(book, session, OrderKind::Refund) is Some
    &&& drawer_sum(drawer, session, DrawerKind::PaidIn) is Some
    &&& drawer_sum(drawer, session, DrawerKind::PaidOut) is Some
}

pub(crate) fn find_kind(book: &SaleService, session: u128, id: u128) -> (r: Option<OrderKind>)
    ensures
        r == kind_in(book@.orders, session, id),
{
    let ghost all = book@.orders;
    let mut i: usize = 0;
    while i < book.orders.len()
        invariant
            i <= book.orders.len(),
            all == book@.orders,
            first_from(all, stands_with(session, id), 0) == first_from(
                all,
                stands_with(session, id),
                i as int,
            ),
        decreases book.orders.len() - i,
    {
        let o = &book.orders[i];
        assert(all[i as int] == o@);
        if o.id == id && o.session_id == session && o.status == OrderStatus::Captured {
            return Some(o.kind);
        }
        i = i + 1;
    }
    None
}

fn sum_tender(book: &SaleService, session: u128, kind: OrderKind, tender: &str) -> (r: Result<
    Decimal,
    Error,
>)
    ensures
        match tender_sum(book@, session, kind, tender@) {
            Some(n) => r is Ok && r->Ok_0@ == n,
            None => refusal(r) == Some(Refusal::Overflow),
        },
{
    let ghost p = paid_by(book@.orders, session, kind, tender@);
    let ghost all = book@.payments;
    let mut sum: Option<Decimal> = Some(Decimal::zero());
    let mut i: usize = 0;
    while i < book.payments.len()
        invariant
            i <= book.payments.len(),
            all == book@.payments,
            p == paid_by(book@.orders, session, kind, tender@),
            opt(sum) == total(picked_to(all, p, its_amount(), i as nat)),
        decreases book.payments.len() - i,
    {
        let row = &book.payments[i];
        assert(all[i as int] == row@);
        if same(row.tender.as_str(), tender) && find_kind(book, session, row.order_id) == Some(
            kind,
        ) {
            proof {
                assert(p(all[i as int]));
                lemma_total_push(picked_to(all, p, its_amount(), i as nat), row.amount@);
            }
            sum = match sum {
                Some(s) => s.checked_add(row.amount),
                None => None,
            };
        } else {
            assert(!p(all[i as int]));
        }
        i = i + 1;
    }
    in_range(sum)
}

fn sum_tenders(book: &SaleService, session: u128, kind: OrderKind) -> (r: Result<ByTender, Error>)
    ensures
        match r {
            Ok(t) => are_tenders(t, book@, session, kind),
            Err(e) => e@ == Refusal::Overflow && !tenders_in_range(book@, session, kind),
        },
{
    let cash = sum_tender(book, session, kind, "cash")?;
    let mpesa = sum_tender(book, session, kind, "mpesa")?;
    let card = sum_tender(book, session, kind, "card")?;
    Ok(ByTender { cash, mpesa, card })
}

fn sum_orders(book: &SaleService, session: u128, kind: OrderKind, tax: bool) -> (r: Result<
    Decimal,
    Error,
>)
    ensures
        match (if tax {
            tax_sum(book@, session, kind)
        } else {
            order_sum(book@, session, kind)
        }) {
            Some(n) => r is Ok && r->Ok_0@ == n,
            None => refusal(r) == Some(Refusal::Overflow),
        },
{
    let ghost p = stands(session, kind);
    let ghost f = if tax {
        its_tax()
    } else {
        its_total()
    };
    let ghost all = book@.orders;
    let mut sum: Option<Decimal> = Some(Decimal::zero());
    let mut i: usize = 0;
    while i < book.orders.len()
        invariant
            i <= book.orders.len(),
            all == book@.orders,
            p == stands(session, kind),
            f == (if tax {
                its_tax()
            } else {
                its_total()
            }),
            opt(sum) == total(picked_to(all, p, f, i as nat)),
        decreases book.orders.len() - i,
    {
        let o = &book.orders[i];
        assert(all[i as int] == o@);
        if o.session_id == session && o.status == OrderStatus::Captured && o.kind == kind {
            let amount = if tax {
                o.tax_total
            } else {
                o.total
            };
            proof {
                assert(p(all[i as int]));
                assert(f(all[i as int]) == amount@);
                lemma_total_push(picked_to(all, p, f, i as nat), amount@);
            }
            sum = match sum {
                Some(s) => s.checked_add(amount),
                None => None,
            };
        } else {
            assert(!p(all[i as int]));
        }
        i = i + 1;
    }
    in_range(sum)
}

fn sum_drawer(drawer: &Vec<CashMovement>, session: u128, kind: DrawerKind) -> (r: Result<
    Decimal,
    Error,
>)
    ensures
        match drawer_sum(drawer@, session, kind) {
            Some(n) => r is Ok && r->Ok_0@ == n,
            None => refusal(r) == Some(Refusal::Overflow),
        },
{
    let ghost p = at_drawer(session, kind);
    let mut sum: Option<Decimal> = Some(Decimal::zero());
    let mut i: usize = 0;
    while i < drawer.len()
        invariant
            i <= drawer.len(),
            p == at_drawer(session, kind),
            opt(sum) == total(picked_to(drawer@, p, moved(), i as nat)),
        decreases drawer.len() - i,
    {
        let m = &drawer[i];
        if m.session_id == session && m.kind == kind {
            proof {
                assert(p(drawer@[i as int]));
                lemma_total_push(picked_to(drawer@, p, moved(), i as nat), m.amount@);
            }
            sum = match sum {
                Some(s) => s.checked_add(m.amount),
                None => None,
            };
        }
        i = i + 1;
    }
    in_range(sum)
}

/// How many orders of a session there are: sales, refunds, voids, those whose
/// price had drifted, and those captured offline.
fn count_orders(book: &SaleService, session: u128) -> (r: (usize, usize, usize, usize, usize))
    ensures
        r.0 == counted(book@.orders, stands(session, OrderKind::Sale)),
        r.1 == counted(book@.orders, stands(session, OrderKind::Refund)),
        r.2 == counted(book@.orders, is_voided(session)),
        r.3 == counted(book@.orders, has_drifted(session)),
        r.4 == counted(book@.orders, was_offline(session)),
{
    let ghost all = book@.orders;
    let mut sales: usize = 0;
    let mut refunds: usize = 0;
    let mut voids: usize = 0;
    let mut drift: usize = 0;
    let mut offline: usize = 0;
    let mut i: usize = 0;
    while i < book.orders.len()
        invariant
            i <= book.orders.len(),
            all == book@.orders,
            sales <= i,
            refunds <= i,
            voids <= i,
            drift <= i,
            offline <= i,
            sales == counted_to(all, stands(session, OrderKind::Sale), i as nat),
            refunds == counted_to(all, stands(session, OrderKind::Refund), i as nat),
            voids == counted_to(all, is_voided(session), i as nat),
            drift == counted_to(all, has_drifted(session), i as nat),
            offline == counted_to(all, was_offline(session), i as nat),
        decreases book.orders.len() - i,
    {
        let o = &book.orders[i];
        assert(all[i as int] == o@);
        if o.session_id == session {
            if o.status == OrderStatus::Captured {
                if o.kind == OrderKind::Sale {
                    sales = sales + 1;
                } else {
                    refunds = refunds + 1;
                }
                if o.price_drift {
                    drift = drift + 1;
                }
                if o.captured_offline {
                    offline = offline + 1;
                }
            } else {
                voids = voids + 1;
            }
        }
        i = i + 1;
    }
    (sales, refunds, voids, drift, offline)
}

/// Add up the orders, the payments and the drawer of a session.
pub fn session_money(book: &SaleService, drawer: &Vec<CashMovement>, session: u128) -> (r: Result<
    SessionMoney,
    Error,
>)
    ensures
        match r {
            Ok(m) => is_money(m, book@, drawer@, session),
            Err(e) => e@ == Refusal::Overflow && !money_in_range(book@, drawer@, session),
        },
{
    let sales = sum_tenders(book, session, OrderKind::Sale)?;
    let refunds = sum_tenders(book, session, OrderKind::Refund)?;
    let gross_sales = sum_orders(book, session, OrderKind::Sale, false)?;
    let refund_total = sum_orders(book, session, OrderKind::Refund, false)?;
    let sales_tax = sum_orders(book, session, OrderKind::Sale, true)?;
    let refund_tax = sum_orders(book, session, OrderKind::Refund, true)?;
    let paid_in = sum_drawer(drawer, session, DrawerKind::PaidIn)?;
    let paid_out = sum_drawer(drawer, session, DrawerKind::PaidOut)?;
    let (sales_count, refunds_count, voids_count, drift_count, offline_count) = count_orders(
        book,
        session,
    );
    Ok(
        SessionMoney {
            sales,
            refunds,
            gross_sales,
            refund_total,
            sales_tax,
            refund_tax,
            paid_in,
            paid_out,
            sales_count,
            refunds_count,
            voids_count,
            drift_count,
            offline_count,
        },
    )
}

/// Revenue without tax, net of refunds.
pub open spec fn net_of_tax(m: SessionMoney) -> Option<Num> {
    difference_of(
        minus(m.gross_sales@, m.sales_tax@),
        minus(m.refund_total@, m.refund_tax@),
    )
}

/// The tax inside the sales less the tax inside the refunds.
pub open spec fn tax_net_of(m: SessionMoney) -> Option<Num> {
    minus(m.sales_tax@, m.refund_tax@)
}

/// What a session took by each tender, net of refunds.
pub open spec fn cash_net(m: SessionMoney) -> Option<Num> {
    minus(m.sales.cash@, m.refunds.cash@)
}

pub open spec fn mpesa_net(m: SessionMoney) -> Option<Num> {
    minus(m.sales.mpesa@, m.refunds.mpesa@)
}

pub open spec fn card_net(m: SessionMoney) -> Option<Num> {
    minus(m.sales.card@, m.refunds.card@)
}

impl SessionMoney {
    /// Net revenue without tax, net of refunds.
    pub fn net_sales(&self) -> (r: Result<Decimal, Error>)
        ensures
            match net_of_tax(*self) {
                Some(n) => r is Ok && r->Ok_0@ == n,
                None => refusal(r) == Some(Refusal::Overflow),
            },
    {
        let sold = in_range(self.gross_sales.checked_sub(self.sales_tax))?;
        let back = in_range(self.refund_total.checked_sub(self.refund_tax))?;
        in_range(sold.checked_sub(back))
    }

    pub fn tax_net(&self) -> (r: Result<Decimal, Error>)
        ensures
            match tax_net_of(*self) {
                Some(n) => r is Ok && r->Ok_0@ == n,
                None => refusal(r) == Some(Refusal::Overflow),
            },
    {
        in_range(self.sales_tax.checked_sub(self.refund_tax))
    }

    /// What each tender took, net of refunds.
    pub fn tender_net(&self) -> (r: Result<ByTender, Error>)
        ensures
            match r {
                Ok(t) => cash_net(*self) == Some(t.cash@) && mpesa_net(*self) == Some(t.mpesa@)
                    && card_net(*self) == Some(t.card@),
                Err(e) => e@ == Refusal::Overflow && (cash_net(*self) is None || mpesa_net(*self)
                    is None || card_net(*self) is None),
            },
    {
        let cash = in_range(self.sales.cash.checked_sub(self.refunds.cash))?;
        let mpesa = in_range(self.sales.mpesa.checked_sub(self.refunds.mpesa))?;
        let card = in_range(self.sales.card.checked_sub(self.refunds.card))?;
        Ok(ByTender { cash, mpesa, card })
    }
}

/// What the drawer should hold: the float, and what moved since.
pub open spec fn expected_cash(m: SessionMoney, opening_float: Num) -> Option<Num> {
    difference_of(
        sum_of(sum_of(Some(opening_float), cash_net(m)), Some(m.paid_in@)),
        Some(m.paid_out@),
    )
}

/// What each tender should hold: cash starts from the float and moves with the
/// drawer, the others are simply what they took.
pub fn expected_by_tender(m: &SessionMoney, opening_float: Decimal) -> (r: Result<ByTender, Error>)
    ensures
        match r {
            Ok(t) => expected_cash(*m, opening_float@) == Some(t.cash@) && mpesa_net(*m) == Some(
                t.mpesa@,
            ) && card_net(*m) == Some(t.card@),
            Err(e) => e@ == Refusal::Overflow && (expected_cash(*m, opening_float@) is None
                || mpesa_net(*m) is None || card_net(*m) is None),
        },
{
    let net = m.tender_net()?;
    let held = in_range(opening_float.checked_add(net.cash))?;
    let filled = in_range(held.checked_add(m.paid_in))?;
    let cash = in_range(filled.checked_sub(m.paid_out))?;
    Ok(ByTender { cash, mpesa: net.mpesa, card: net.card })
}

// ---------------------------------------------------------------------------
// Laws
// ---------------------------------------------------------------------------

/// An amount of at most six decimal places and twenty digits before the point.
pub open spec fn modest(n: Num) -> bool {
    within(n, kept_places(), limit() / 1000)
}

/// The drawer holds its float, the cash of the sales less that of the refunds,
/// and what was paid in less what was paid out: nothing else.
pub proof fn cash_is_accounted_for(m: SessionMoney, opening_float: Num)
    requires
        modest(opening_float),
        modest(m.sales.cash@),
        modest(m.refunds.cash@),
        modest(m.paid_in@),
        modest(m.paid_out@),
    ensures
        expected_cash(m, opening_float) is Some,
        worth(expected_cash(m, opening_float)->0) == worth(opening_float) + worth(m.sales.cash@)
            - worth(m.refunds.cash@) + worth(m.paid_in@) - worth(m.paid_out@),
{
    let p = kept_places();
    let unit = limit() / 1000;
    lemma_combined_exact(m.sales.cash@, m.refunds.cash@, -1, p, unit, unit);
    let net = cash_net(m)->0;
    lemma_combined_exact(opening_float, net, 1, p, unit, 2 * unit);
    let held = plus(opening_float, net)->0;
    lemma_combined_exact(held, m.paid_in@, 1, p, 3 * unit, unit);
    let filled = plus(held, m.paid_in@)->0;
    lemma_combined_exact(filled, m.paid_out@, -1, p, 4 * unit, unit);
}

/// Where the tenders of every order come to its total, what the tenders took
/// is exactly the revenue and the tax inside it.
pub proof fn tenders_match_revenue(m: SessionMoney)
    requires
        modest(m.sales.cash@) && modest(m.sales.mpesa@) && modest(m.sales.card@),
        modest(m.refunds.cash@) && modest(m.refunds.mpesa@) && modest(m.refunds.card@),
        modest(m.gross_sales@) && modest(m.sales_tax@),
        modest(m.refund_total@) && modest(m.refund_tax@),
        worth(m.gross_sales@) == worth(m.sales.cash@) + worth(m.sales.mpesa@) + worth(
            m.sales.card@,
        ),
        worth(m.refund_total@) == worth(m.refunds.cash@) + worth(m.refunds.mpesa@) + worth(
            m.refunds.card@,
        ),
    ensures
        cash_net(m) is Some,
        mpesa_net(m) is Some,
        card_net(m) is Some,
        net_of_tax(m) is Some,
        tax_net_of(m) is Some,
        worth(cash_net(m)->0) + worth(mpesa_net(m)->0) + worth(card_net(m)->0) == worth(
            net_of_tax(m)->0,
        ) + worth(tax_net_of(m)->0),
{
    let p = kept_places();
    let unit = limit() / 1000;
    lemma_combined_exact(m.sales.cash@, m.refunds.cash@, -1, p, unit, unit);
    lemma_combined_exact(m.sales.mpesa@, m.refunds.mpesa@, -1, p, unit, unit);
    lemma_combined_exact(m.sales.card@, m.refunds.card@, -1, p, unit, unit);
    lemma_combined_exact(m.gross_sales@, m.sales_tax@, -1, p, unit, unit);
    lemma_combined_exact(m.refund_total@, m.refund_tax@, -1, p, unit, unit);
    lemma_combined_exact(m.sales_tax@, m.refund_tax@, -1, p, unit, unit);
    let sold = minus(m.gross_sales@, m.sales_tax@)->0;
    let back = minus(m.refund_total@, m.refund_tax@)->0;
    lemma_combined_exact(sold, back, -1, p, 2 * unit, 2 * unit);
}

// ---------------------------------------------------------------------------
// The X and Z reports
// ---------------------------------------------------------------------------

/// One tender of a session's report.
#[derive(Debug)]
pub struct TenderReportLine {
    pub tender: String,
    pub sales: Decimal,
    pub refunds: Decimal,
    pub net: Decimal,
    /// What the tender should hold; absent where it is hidden.
    pub expected: Option<Decimal>,
    /// What was counted at the close; absent while the session is live.
    pub counted: Option<Decimal>,
    pub variance: Option<Decimal>,
}

/// What a tender of a report says.
pub struct TenderFacts {
    pub tender: Seq<char>,
    pub sales: Num,
    pub refunds: Num,
    pub net: Num,
    pub expected: Option<Num>,
    pub counted: Option<Num>,
    pub variance: Option<Num>,
}

impl View for TenderReportLine {
    type V = TenderFacts;

    open spec fn view(&self) -> TenderFacts {
        TenderFacts {
            tender: self.tender@,
            sales: self.sales@,
            refunds: self.refunds@,
            net: self.net@,
            expected: opt(self.expected),
            counted: opt(self.counted),
            variance: opt(self.variance),
        }
    }
}

/// A session as it is shown, with its register.
#[derive(Debug)]
pub struct SessionView {
    pub id: u128,
    pub number: Option<String>,
    pub register_id: u128,
    pub register_code: String,
    pub register_name: String,
    pub cashier_id: u128,
    pub status: SessionStatus,
    pub opened_at: i64,
    pub opening_float: Decimal,
    pub closed_at: Option<i64>,
    pub closed_by: Option<u128>,
    pub closing_note: Option<String>,
    pub move_id: Option<u128>,
    pub gl_source: Option<String>,
}

/// Whether a view shows a session.
pub open spec fn shows_session(v: SessionView, s: Session, register: Option<Register>) -> bool {
    &&& v.id == s.id
    &&& opt_text(v.number) == opt_text(s.number)
    &&& v.register_id == s.register_id
    &&& v.register_code@ == (match register {
        Some(r) => r.code@,
        None => ""@,
    })
    &&& v.register_name@ == (match register {
        Some(r) => r.name@,
        None => ""@,
    })
    &&& v.cashier_id == s.cashier_id
    &&& v.status == s.status
    &&& v.opened_at == s.opened_at
    &&& v.opening_float == s.opening_float
    &&& v.closed_at == s.closed_at
    &&& v.closed_by == s.closed_by
    &&& opt_text(v.closing_note) == opt_text(s.closing_note)
    &&& v.move_id == s.move_id
    &&& opt_text(v.gl_source) == opt_text(s.gl_source)
}

/// Show a session with its register, where that is known.
pub fn view_of(s: &Session, register: Option<&Register>) -> (r: SessionView)
    ensures
        shows_session(r, *s, match register {
            Some(m) => Some(*m),
            None => None,
        }),
{
    let (register_code, register_name) = match register {
        Some(m) => (m.code.clone(), m.name.clone()),
        None => ("".to_owned(), "".to_owned()),
    };
    SessionView {
        id: s.id,
        number: copy_text(&s.number),
        register_id: s.register_id,
        register_code,
        register_name,
        cashier_id: s.cashier_id,
        status: s.status,
        opened_at: s.opened_at,
        opening_float: s.opening_float,
        closed_at: s.closed_at,
        closed_by: s.closed_by,
        closing_note: copy_text(&s.closing_note),
        move_id: s.move_id,
        gl_source: copy_text(&s.gl_source),
    }
}

/// The live or the stored picture of a session.
#[derive(Debug)]
pub struct SessionReport {
    pub session: SessionView,
    pub orders: usize,
    pub refunds: usize,
    pub voids: usize,
    /// Sales whose price no longer matched when they were synced.
    pub price_drift: usize,
    /// Sales captured with the network down.
    pub offline: usize,
    pub gross_sales: Decimal,
    pub refund_total: Decimal,
    /// Net takings, tax included.
    pub net_total: Decimal,
    pub tax_total: Decimal,
    pub paid_in: Decimal,
    pub paid_out: Decimal,
    /// What the drawer should hold in cash; absent where it is hidden.
    pub expected_cash: Option<Decimal>,
    pub tenders: Vec<TenderReportLine>,
}

pub open spec fn counted_as(session: u128, tender: Seq<char>) -> spec_fn(SessionCount) -> bool {
    |c: SessionCount| c.session_id == session && c.tender@ == tender
}

/// What was counted of a tender, where the report goes by the stored counts.
pub open spec fn stored_count(
    counts: Seq<SessionCount>,
    session: u128,
    tender: Seq<char>,
    stored: bool,
) -> Option<SessionCount> {
    if stored {
        first_where(counts, counted_as(session, tender))
    } else {
        None
    }
}

/// What a report says of a tender: what was counted stands as it was stored;
/// otherwise the live picture does. The outer level is absent where an amount
/// leaves the range, the inner one where there is nothing to say: only cash is
/// always listed.
pub open spec fn tender_facts(
    tender: Seq<char>,
    sales: Num,
    refunds: Num,
    expected: Num,
    stored: Option<SessionCount>,
) -> Option<Option<TenderFacts>> {
    let due = match stored {
        Some(c) => c.expected@,
        None => expected,
    };
    let variance = match stored {
        Some(c) => minus(c.counted@, c.expected@),
        None => None,
    };
    if stored is Some && variance is None {
        None
    } else if sales.0 == 0 && refunds.0 == 0 && due.0 == 0 && stored is None && tender != "cash"@ {
        Some(None)
    } else {
        match minus(sales, refunds) {
            None => None,
            Some(net) => Some(
                Some(
                    TenderFacts {
                        tender,
                        sales,
                        refunds,
                        net,
                        expected: Some(due),
                        counted: match stored {
                            Some(c) => Some(c.counted@),
                            None => None,
                        },
                        variance,
                    },
                ),
            ),
        }
    }
}

fn find_count(counts: &Vec<SessionCount>, session: u128, tender: &str, stored: bool) -> (r: Option<
    usize,
>)
    ensures
        match r {
            Some(i) => i < counts@.len() && stored_count(counts@, session, tender@, stored) == Some(
                counts@[i as int],
            ),
            None => stored_count(counts@, session, tender@, stored) is None,
        },
{
    if !stored {
        return None;
    }
    find(counts, Ghost(counted_as(session, tender@)), |x: &SessionCount| -> (b: bool)
        ensures
            b == counted_as(session, tender@)(*x),
        { x.session_id == session && same(x.tender.as_str(), tender) })
}

fn tender_line(
    tender: &str,
    sales: Decimal,
    refunds: Decimal,
    expected: Decimal,
    stored: Option<&SessionCount>,
) -> (r: Result<Option<TenderReportLine>, Error>)
    ensures
        match tender_facts(
            tender@,
            sales@,
            refunds@,
            expected@,
            match stored {
                Some(c) => Some(*c),
                None => None,
            },
        ) {
            None => refusal(r) == Some(Refusal::Overflow),
            Some(None) => r is Ok && r->Ok_0 is None,
            Some(Some(f)) => r is Ok && r->Ok_0 is Some && r->Ok_0->0@ == f,
        },
{
    let (due, counted, variance) = match stored {
        Some(c) => (
            c.expected,
            Some(c.counted),
            Some(in_range(c.counted.checked_sub(c.expected))?),
        ),
        None => (expected, None, None),
    };
    if sales.is_zero() && refunds.is_zero() && due.is_zero() && stored.is_none() && !same(
        tender,
        "cash",
    ) {
        return Ok(None);
    }
    let net = in_range(sales.checked_sub(refunds))?;
    Ok(
        Some(
            TenderReportLine {
                tender: tender.to_owned(),
                sales,
                refunds,
                net,
                expected: Some(due),
                counted,
                variance,
            },
        ),
    )
}

/// The tenders that a report lists, of the three there are.
pub open spec fn listed(
    cash: Option<TenderFacts>,
    mpesa: Option<TenderFacts>,
    card: Option<TenderFacts>,
) -> Seq<
    TenderFacts,
> {
    one(cash) + one(mpesa) + one(card)
}

pub open spec fn one(t: Option<TenderFacts>) -> Seq<TenderFacts> {
    match t {
        Some(f) => seq![f],
        None => Seq::empty(),
    }
}

/// Whether a report is that of a session with its money.
pub open spec fn is_report(
    r: SessionReport,
    s: Session,
    register: Option<Register>,
    m: SessionMoney,
    counts: Seq<SessionCount>,
    stored: bool,
) -> bool {
    let cash = tender_facts(
        "cash"@,
        m.sales.cash@,
        m.refunds.cash@,
        expected_cash(m, s.opening_float@)->0,
        stored_count(counts, s.id, "cash"@, stored),
    );
    let mpesa = tender_facts(
        "mpesa"@,
        m.sales.mpesa@,
        m.refunds.mpesa@,
        mpesa_net(m)->0,
        stored_count(counts, s.id, "mpesa"@, stored),
    );
    let card = tender_facts(
        "card"@,
        m.sales.card@,
        m.refunds.card@,
        card_net(m)->0,
        stored_count(counts, s.id, "card"@, stored),
    );
    &&& shows_session(r.session, s, register)
    &&& r.orders == m.sales_count
    &&& r.refunds == m.refunds_count
    &&& r.voids == m.voids_count
    &&& r.price_drift == m.drift_count
    &&& r.offline == m.offline_count
    &&& r.gross_sales == m.gross_sales
    &&& r.refund_total == m.refund_total
    &&& sum_of(net_of_tax(m), tax_net_of(m)) == Some(r.net_total@)
    &&& tax_net_of(m) == Some(r.tax_total@)
    &&& r.paid_in == m.paid_in
    &&& r.paid_out == m.paid_out
    &&& expected_cash(m, s.opening_float@) is Some
    &&& opt(r.expected_cash) == expected_cash(m, s.opening_float@)
    &&& mpesa_net(m) is Some
    &&& card_net(m) is Some
    &&& cash is Some && mpesa is Some && card is Some
    &&& r.tenders@.map_values(|t: TenderReportLine| t@) == listed(cash->0, mpesa->0, card->0)
}

/// Whether some amount of a session's report leaves the range.
pub open spec fn report_overflows(
    s: Session,
    m: SessionMoney,
    counts: Seq<SessionCount>,
    stored: bool,
) -> bool {
    ||| expected_cash(m, s.opening_float@) is None
    ||| mpesa_net(m) is None
    ||| card_net(m) is None
    ||| tax_net_of(m) is None
    ||| sum_of(net_of_tax(m), tax_net_of(m)) is None
    ||| tender_facts(
        "cash"@,
        m.sales.cash@,
        m.refunds.cash@,
        expected_cash(m, s.opening_float@)->0,
        stored_count(counts, s.id, "cash"@, stored),
    ) is None
    ||| tender_facts(
        "mpesa"@,
        m.sales.mpesa@,
        m.refunds.mpesa@,
        mpesa_net(m)->0,
        stored_count(counts, s.id, "mpesa"@, stored),
    ) is None
    ||| tender_facts(
        "card"@,
        m.sales.card@,
        m.refunds.card@,
        card_net(m)->0,
        stored_count(counts, s.id, "card"@, stored),
    ) is None
}

pub(crate) fn stored_row<'a>(counts: &'a Vec<SessionCount>, session: u128, tender: &str, stored: bool) -> (r:
    Option<&'a SessionCount>)
    ensures
        match stored_count(counts@, session, tender@, stored) {
            Some(c) => r is Some && *r->0 == c,
            None => r is None,
        },
{
    match find_count(counts, session, tender, stored) {
        Some(i) => Some(&counts[i]),
        None => None,
    }
}

/// The picture of a session: live, or by the counts stored at its close.
pub fn report_for(
    s: &Session,
    register: Option<&Register>,
    m: &SessionMoney,
    counts: &Vec<SessionCount>,
    stored: bool,
) -> (r: Result<SessionReport, Error>)
    ensures
        match r {
            Ok(report) => is_report(
                report,
                *s,
                match register {
                    Some(g) => Some(*g),
                    None => None,
                },
                *m,
                counts@,
                stored,
            ),
            Err(e) => e@ == Refusal::Overflow && report_overflows(*s, *m, counts@, stored),
        },
{
    let expected = expected_by_tender(m, s.opening_float)?;
    let mut tenders: Vec<TenderReportLine> = Vec::new();
    let cash = tender_line(
        "cash",
        m.sales.cash,
        m.refunds.cash,
        expected.cash,
        stored_row(counts, s.id, "cash", stored),
    )?;
    let mpesa = tender_line(
        "mpesa",
        m.sales.mpesa,
        m.refunds.mpesa,
        expected.mpesa,
        stored_row(counts, s.id, "mpesa", stored),
    )?;
    let card = tender_line(
        "card",
        m.sales.card,
        m.refunds.card,
        expected.card,
        stored_row(counts, s.id, "card", stored),
    )?;
    if let Some(line) = cash {
        tenders.push(line);
    }
    if let Some(line) = mpesa {
        tenders.push(line);
    }
    if let Some(line) = card {
        tenders.push(line);
    }
    let net_sales = m.net_sales()?;
    let tax_total = m.tax_net()?;
    let net_total = in_range(net_sales.checked_add(tax_total))?;
    let report = SessionReport {
        session: view_of(s, register),
        orders: m.sales_count,
        refunds: m.refunds_count,
        voids: m.voids_count,
        price_drift: m.drift_count,
        offline: m.offline_count,
        gross_sales: m.gross_sales,
        refund_total: m.refund_total,
        net_total,
        tax_total,
        paid_in: m.paid_in,
        paid_out: m.paid_out,
        expected_cash: Some(expected.cash),
        tenders,
    };
    proof {
        let shown = report.tenders@.map_values(|t: TenderReportLine| t@);
        let c = tender_facts(
            "cash"@,
            m.sales.cash@,
            m.refunds.cash@,
            expected.cash@,
            stored_count(counts@, s.id, "cash"@, stored),
        );
        let p = tender_facts(
            "mpesa"@,
            m.sales.mpesa@,
            m.refunds.mpesa@,
            expected.mpesa@,
            stored_count(counts@, s.id, "mpesa"@, stored),
        );
        let d = tender_facts(
            "card"@,
            m.sales.card@,
            m.refunds.card@,
            expected.card@,
            stored_count(counts@, s.id, "card"@, stored),
        );
        assert(shown =~= listed(c->0, p->0, d->0));
    }
    Ok(report)
}

impl SessionService {
    /// The X report: the live picture of a session.
    pub fn x_report(&self, book: &SaleService, register: Option<&Register>, id: u128) -> (r: Result<
        SessionReport,
        Error,
    >)
        ensures
            match first_where(self.sessions@, session_id(id)) {
                None => refusal(r) == Some(Refusal::NotFound("pos session "@ + id_text(id))),
                Some(s) => reported(
                    r,
                    s,
                    register,
                    book@,
                    self.drawer@,
                    self.counts@,
                    false,
                ),
            },
    {
        match find_session(&self.sessions, id) {
            None => Err(no_session(id)),
            Some(i) => self.report(book, register, i, false),
        }
    }

    /// The Z report: the picture of a session by what was counted at its
    /// close, which stays true forever. Refused while the session is open.
    pub fn z_report(&self, book: &SaleService, register: Option<&Register>, id: u128) -> (r: Result<
        SessionReport,
        Error,
    >)
        ensures
            is_z(r, *self, book@, register, id),
    {
        match find_session(&self.sessions, id) {
            None => Err(no_session(id)),
            Some(i) => {
                if self.sessions[i].status == SessionStatus::Open {
                    return Err(
                        Error::Validation(
                            "the session is still open; ask for the X report".to_owned(),
                        ),
                    );
                }
                self.report(book, register, i, true)
            },
        }
    }

    fn report(
        &self,
        book: &SaleService,
        register: Option<&Register>,
        i: usize,
        stored: bool,
    ) -> (r: Result<SessionReport, Error>)
        requires
            i < self.sessions@.len(),
        ensures
            reported(
                r,
                self.sessions@[i as int],
                register,
                book@,
                self.drawer@,
                self.counts@,
                stored,
            ),
    {
        let s = &self.sessions[i];
        let m = session_money(book, &self.drawer, s.id)?;
        let report = report_for(s, register, &m, &self.counts, stored);
        report
    }
}

/// Whether a result is the report of a session: the one of its money, or the
/// overflow of some amount in it.
pub open spec fn reported(
    r: Result<SessionReport, Error>,
    s: Session,
    register: Option<&Register>,
    book: Book,
    drawer: Seq<CashMovement>,
    counts: Seq<SessionCount>,
    stored: bool,
) -> bool {
    match r {
        Ok(report) => exists|m: SessionMoney|
            #[trigger] is_money(m, book, drawer, s.id) && is_report(
                report,
                s,
                match register {
                    Some(g) => Some(*g),
                    None => None,
                },
                m,
                counts,
                stored,
            ),
        Err(e) => e@ == Refusal::Overflow && (!money_in_range(book, drawer, s.id) || exists|
            m: SessionMoney,
        |
            #[trigger] is_money(m, book, drawer, s.id) && report_overflows(s, m, counts, stored)),
    }
}

/// Whether an outcome is the Z report of a session, which only one that is no
/// longer open has.
pub open spec fn is_z(
    r: Result<SessionReport, Error>,
    service: SessionService,
    book: Book,
    register: Option<&Register>,
    id: u128,
) -> bool {
    match first_where(service.sessions@, session_id(id)) {
        None => refusal(r) == Some(Refusal::NotFound("pos session "@ + id_text(id))),
        Some(s) => if s.status == SessionStatus::Open {
            refusal(r) == Some(
                Refusal::Validation("the session is still open; ask for the X report"@),
            )
        } else {
            reported(r, s, register, book, service.drawer@, service.counts@, true)
        },
    }
}

} // verus!
