//! Orders and sessions as they are shown.

use super::pricing::{copy_source, customer_id, find_customer, opt_source, Customer, PriceSource};
use super::refund::{find_order, no_order, order_id};
use super::register::{find_register, register_id, Model as Register};
use super::sale::{
    Book, LineFacts, Order, OrderFacts, OrderKind, OrderLine, OrderPayment, OrderStatus,
    PaymentFacts, SaleService,
};
use super::session::{find_session, no_session, session_id, Session, SessionService, SessionStatus};
use super::takings::{shows_session, view_of, SessionView};
use crate::decimal::{minus, opt, zero, Decimal, Num};
use crate::error::{in_range, refusal, Error, Refusal};
use crate::scm::inventory::stock::{money, round_money};
use crate::search::{first_where, kept, kept_to, lemma_first_from};
use crate::sort::{arrange, arranged, Ordered};
use crate::sums::sum_of;
use crate::text::{copy_text, id_text, opt_text};
use vstd::prelude::*;

verus! {

// ---------------------------------------------------------------------------
// Change
// ---------------------------------------------------------------------------

/// What the first `n` tenders give back on an order: what was handed over
/// beyond what was applied.
pub open spec fn change_to(payments: Seq<PaymentFacts>, order: u128, n: nat) -> Option<Num>
    decreases n,
{
    if n == 0 {
        Some(zero())
    } else {
        let p = payments[n - 1];
        let rest = change_to(payments, order, (n - 1) as nat);
        match p.tendered {
            Some(given) => if p.order_id == order {
                sum_of(rest, minus(given, p.amount))
            } else {
                rest
            },
            None => rest,
        }
    }
}

proof fn lemma_change_stops(payments: Seq<PaymentFacts>, order: u128, i: nat, n: nat)
    requires
        i <= n,
        change_to(payments, order, i) is None,
    ensures
        change_to(payments, order, n) is None,
    decreases n,
{
    if i < n {
        lemma_change_stops(payments, order, i, (n - 1) as nat);
    }
}

impl SaleService {
    /// The change due on an order, over all its tenders, to the cent.
    pub fn change_due(&self, order: u128) -> (r: Result<Decimal, Error>)
        ensures
            match change_to(self@.payments, order, self@.payments.len()) {
                Some(n) => r is Ok && r->Ok_0@ == money(n),
                None => refusal(r) == Some(Refusal::Overflow),
            },
    {
        let ghost all = self@.payments;
        let mut sum = Decimal::zero();
        let mut i: usize = 0;
        while i < self.payments.len()
            invariant
                i <= self.payments.len(),
                all == self@.payments,
                change_to(all, order, i as nat) == Some(sum@),
            decreases self.payments.len() - i,
        {
            let p = &self.payments[i];
            proof {
                assert(all[i as int] == p@);
                if change_to(all, order, (i + 1) as nat) is None {
                    lemma_change_stops(all, order, (i + 1) as nat, all.len());
                }
            }
            if p.order_id == order {
                if let Some(given) = p.tendered {
                    let change = in_range(given.checked_sub(p.amount))?;
                    sum = in_range(sum.checked_add(change))?;
                }
            }
            i = i + 1;
        }
        Ok(round_money(sum))
    }
}

// ---------------------------------------------------------------------------
// One order
// ---------------------------------------------------------------------------

/// A line of an order.
#[derive(Debug)]
pub struct OrderLineView {
    pub id: u128,
    pub line_no: usize,
    pub item_id: u128,
    pub description: String,
    pub qty: Decimal,
    pub unit_price: Decimal,
    pub price_source: Option<PriceSource>,
    pub discount_pct: Option<Decimal>,
    pub tax_amount: Decimal,
    pub net: Decimal,
    pub batch_id: Option<u128>,
    pub refund_of_line_id: Option<u128>,
}

impl Ordered for OrderLineView {
    /// The lines stand by their numbers.
    open spec fn precedes(a: Self, b: Self) -> bool {
        a.line_no < b.line_no
    }

    fn goes_before(&self, other: &Self) -> (r: bool) {
        self.line_no < other.line_no
    }
}

/// Whether a view shows a stored line.
pub open spec fn shows_line(v: OrderLineView, l: LineFacts) -> bool {
    &&& v.id == l.id
    &&& v.line_no == l.line_no
    &&& v.item_id == l.item_id
    &&& v.description@ == l.description
    &&& v.qty@ == l.qty
    &&& v.unit_price@ == l.unit_price
    &&& opt_source(v.price_source) == l.price_source
    &&& opt(v.discount_pct) == l.discount_pct
    &&& v.tax_amount@ == l.tax_amount
    &&& v.net@ == l.net
    &&& v.batch_id == l.batch_id
    &&& v.refund_of_line_id == l.refund_of_line_id
}

pub open spec fn shows_lines(rows: Seq<OrderLineView>, lines: Seq<LineFacts>) -> bool {
    &&& rows.len() == lines.len()
    &&& forall|i: int| 0 <= i < rows.len() ==> shows_line(#[trigger] rows[i], lines[i])
}

/// A tender of an order.
#[derive(Debug)]
pub struct OrderPaymentView {
    pub tender: String,
    pub amount: Decimal,
    pub tendered: Option<Decimal>,
    pub reference: Option<String>,
}

/// Whether a view shows a stored tender.
pub open spec fn shows_payment(v: OrderPaymentView, p: PaymentFacts) -> bool {
    &&& v.tender@ == p.tender
    &&& v.amount@ == p.amount
    &&& opt(v.tendered) == p.tendered
    &&& opt_text(v.reference) == p.reference
}

pub open spec fn shows_payments(rows: Seq<OrderPaymentView>, payments: Seq<PaymentFacts>) -> bool {
    &&& rows.len() == payments.len()
    &&& forall|i: int| 0 <= i < rows.len() ==> shows_payment(#[trigger] rows[i], payments[i])
}

/// An order with its lines and its tenders.
#[derive(Debug)]
pub struct OrderView {
    pub id: u128,
    pub number: Option<String>,
    pub client_uuid: u128,
    pub session_id: u128,
    pub kind: OrderKind,
    pub status: OrderStatus,
    pub customer_id: u128,
    pub customer_name: String,
    /// The moment of sale, in microseconds since the epoch.
    pub sold_at: i64,
    pub currency: String,
    pub subtotal: Decimal,
    pub discount_total: Decimal,
    pub tax_total: Decimal,
    pub total: Decimal,
    /// Cash change due, summed over the tenders.
    pub change: Decimal,
    pub refund_of_id: Option<u128>,
    pub captured_offline: bool,
    pub price_drift: bool,
    pub void_reason: Option<String>,
    pub lines: Vec<OrderLineView>,
    pub payments: Vec<OrderPaymentView>,
}

pub open spec fn line_of(order: u128) -> spec_fn(LineFacts) -> bool {
    |l: LineFacts| l.order_id == order
}

pub open spec fn payment_of(order: u128) -> spec_fn(PaymentFacts) -> bool {
    |p: PaymentFacts| p.order_id == order
}

/// Whether a view shows what an order says of itself.
pub open spec fn shows_head(v: OrderView, o: OrderFacts) -> bool {
    &&& v.id == o.id
    &&& opt_text(v.number) == o.number
    &&& v.client_uuid == o.client_uuid
    &&& v.session_id == o.session_id
    &&& v.kind == o.kind
    &&& v.status == o.status
    &&& v.customer_id == o.customer_id
    &&& v.sold_at == o.sold_at
    &&& v.currency@ == o.currency
    &&& v.subtotal@ == o.subtotal
    &&& v.discount_total@ == o.discount_total
    &&& v.tax_total@ == o.tax_total
    &&& v.total@ == o.total
    &&& v.refund_of_id == o.refund_of_id
    &&& v.captured_offline == o.captured_offline
    &&& v.price_drift == o.price_drift
    &&& opt_text(v.void_reason) == (match o.voided {
        Some(w) => Some(w.2),
        None => None,
    })
}

/// Whether a view shows an order of the book, with its lines by number, its
/// tenders as they came, and its customer's name, where that is known.
pub open spec fn shows_order(
    v: OrderView,
    o: OrderFacts,
    book: Book,
    customers: Seq<Customer>,
) -> bool {
    &&& shows_head(v, o)
    &&& v.customer_name@ == (match first_where(customers, customer_id(o.customer_id)) {
        Some(c) => c.name@,
        None => ""@,
    })
    &&& exists|rows: Seq<OrderLineView>|
        #[trigger] shows_lines(rows, kept(book.lines, line_of(o.id))) && v.lines@ == arranged(rows)
    &&& shows_payments(v.payments@, kept(book.payments, payment_of(o.id)))
}

fn show_line(l: &OrderLine) -> (r: OrderLineView)
    ensures
        shows_line(r, l@),
{
    OrderLineView {
        id: l.id,
        line_no: l.line_no,
        item_id: l.item_id,
        description: l.description.clone(),
        qty: l.qty,
        unit_price: l.unit_price,
        price_source: copy_source(&l.price_source),
        discount_pct: l.discount_pct,
        tax_amount: l.tax_amount,
        net: l.net,
        batch_id: l.batch_id,
        refund_of_line_id: l.refund_of_line_id,
    }
}

fn show_payment(p: &OrderPayment) -> (r: OrderPaymentView)
    ensures
        shows_payment(r, p@),
{
    OrderPaymentView {
        tender: p.tender.clone(),
        amount: p.amount,
        tendered: p.tendered,
        reference: copy_text(&p.reference),
    }
}

impl SaleService {
    fn lines_of(&self, order: u128) -> (r: Vec<OrderLineView>)
        ensures
            shows_lines(r@, kept(self@.lines, line_of(order))),
    {
        let ghost all = self@.lines;
        let mut out: Vec<OrderLineView> = Vec::new();
        let mut i: usize = 0;
        while i < self.lines.len()
            invariant
                i <= self.lines.len(),
                all == self@.lines,
                shows_lines(out@, kept_to(all, line_of(order), i as nat)),
            decreases self.lines.len() - i,
        {
            assert(all[i as int] == self.lines@[i as int]@);
            if self.lines[i].order_id == order {
                out.push(show_line(&self.lines[i]));
            }
            i = i + 1;
        }
        out
    }

    fn payments_of(&self, order: u128) -> (r: Vec<OrderPaymentView>)
        ensures
            shows_payments(r@, kept(self@.payments, payment_of(order))),
    {
        let ghost all = self@.payments;
        let mut out: Vec<OrderPaymentView> = Vec::new();
        let mut i: usize = 0;
        while i < self.payments.len()
            invariant
                i <= self.payments.len(),
                all == self@.payments,
                shows_payments(out@, kept_to(all, payment_of(order), i as nat)),
            decreases self.payments.len() - i,
        {
            assert(all[i as int] == self.payments@[i as int]@);
            if self.payments[i].order_id == order {
                out.push(show_payment(&self.payments[i]));
            }
            i = i + 1;
        }
        out
    }
}

/// Show an order.
pub fn view(book: &SaleService, customers: &Vec<Customer>, id: u128) -> (r: Result<OrderView, Error>)
    ensures
        match first_where(book@.orders, order_id(id)) {
            None => refusal(r) == Some(Refusal::NotFound("pos order "@ + id_text(id))),
            Some(o) => match change_to(book@.payments, id, book@.payments.len()) {
                None => refusal(r) == Some(Refusal::Overflow),
                Some(n) => r is Ok && r->Ok_0.change@ == money(n) && shows_order(
                    r->Ok_0,
                    o,
                    book@,
                    customers@,
                ),
            },
        },
{
    let i = match find_order(&book.orders, id) {
        Some(i) => i,
        None => {
            return Err(no_order(id));
        },
    };
    let o = &book.orders[i];
    proof {
        assert(book@.orders[i as int] == o@);
        lemma_first_from(book@.orders, order_id(id), 0);
    }
    let change = book.change_due(id)?;
    let customer_name = match find_customer(customers, o.customer_id) {
        Some(k) => customers[k].name.clone(),
        None => "".to_owned(),
    };
    let void_reason = match &o.voided {
        Some(w) => Some(w.reason.clone()),
        None => None,
    };
    let rows = book.lines_of(id);
    let ghost shown = rows@;
    assert(shows_lines(shown, kept(book@.lines, line_of(o.id))));
    Ok(
        OrderView {
            id: o.id,
            number: copy_text(&o.number),
            client_uuid: o.client_uuid,
            session_id: o.session_id,
            kind: o.kind,
            status: o.status,
            customer_id: o.customer_id,
            customer_name,
            sold_at: o.sold_at,
            currency: o.currency.clone(),
            subtotal: o.subtotal,
            discount_total: o.discount_total,
            tax_total: o.tax_total,
            total: o.total,
            change,
            refund_of_id: o.refund_of_id,
            captured_offline: o.captured_offline,
            price_drift: o.price_drift,
            void_reason,
            lines: arrange(rows),
            payments: book.payments_of(id),
        },
    )
}

// ---------------------------------------------------------------------------
// Lists of orders
// ---------------------------------------------------------------------------

/// An order in a list.
#[derive(Debug)]
pub struct OrderHeader {
    pub id: u128,
    pub number: Option<String>,
    pub client_uuid: u128,
    pub session_id: u128,
    pub kind: OrderKind,
    pub status: OrderStatus,
    /// The moment of sale, in microseconds since the epoch.
    pub sold_at: i64,
    pub currency: String,
    pub total: Decimal,
    pub price_drift: bool,
    pub captured_offline: bool,
}

impl Ordered for OrderHeader {
    /// The order that was sold last stands first.
    open spec fn precedes(a: Self, b: Self) -> bool {
        b.sold_at < a.sold_at
    }

    fn goes_before(&self, other: &Self) -> (r: bool) {
        other.sold_at < self.sold_at
    }
}

/// Which orders are listed.
#[derive(Clone, Copy, Debug)]
pub struct OrderFilter {
    pub session_id: Option<u128>,
    pub kind: Option<OrderKind>,
}

pub open spec fn passes(f: OrderFilter) -> spec_fn(OrderFacts) -> bool {
    |o: OrderFacts|
        {
            &&& f.session_id matches Some(id) ==> o.session_id == id
            &&& f.kind matches Some(k) ==> o.kind == k
        }
}

/// Whether a header shows an order.
pub open spec fn heads(h: OrderHeader, o: OrderFacts) -> bool {
    &&& h.id == o.id
    &&& opt_text(h.number) == o.number
    &&& h.client_uuid == o.client_uuid
    &&& h.session_id == o.session_id
    &&& h.kind == o.kind
    &&& h.status == o.status
    &&& h.sold_at == o.sold_at
    &&& h.currency@ == o.currency
    &&& h.total@ == o.total
    &&& h.price_drift == o.price_drift
    &&& h.captured_offline == o.captured_offline
}

pub open spec fn are_heads(rows: Seq<OrderHeader>, orders: Seq<OrderFacts>) -> bool {
    &&& rows.len() == orders.len()
    &&& forall|i: int| 0 <= i < rows.len() ==> heads(#[trigger] rows[i], orders[i])
}

fn head(o: &Order) -> (r: OrderHeader)
    ensures
        heads(r, o@),
{
    OrderHeader {
        id: o.id,
        number: copy_text(&o.number),
        client_uuid: o.client_uuid,
        session_id: o.session_id,
        kind: o.kind,
        status: o.status,
        sold_at: o.sold_at,
        currency: o.currency.clone(),
        total: o.total,
        price_drift: o.price_drift,
        captured_offline: o.captured_offline,
    }
}

impl SaleService {
    /// The orders that a filter lets pass, the one that was sold last first.
    pub fn list(&self, filter: OrderFilter) -> (r: Vec<OrderHeader>)
        ensures
            exists|rows: Seq<OrderHeader>|
                #[trigger] are_heads(rows, kept(self@.orders, passes(filter))) && r@ == arranged(
                    rows,
                ),
    {
        let ghost all = self@.orders;
        let mut rows: Vec<OrderHeader> = Vec::new();
        let mut i: usize = 0;
        while i < self.orders.len()
            invariant
                i <= self.orders.len(),
                all == self@.orders,
                are_heads(rows@, kept_to(all, passes(filter), i as nat)),
            decreases self.orders.len() - i,
        {
            let o = &self.orders[i];
            assert(all[i as int] == o@);
            let in_session = match filter.session_id {
                Some(id) => o.session_id == id,
                None => true,
            };
            let of_kind = match filter.kind {
                Some(k) => o.kind == k,
                None => true,
            };
            if in_session && of_kind {
                rows.push(head(o));
            }
            i = i + 1;
        }
        assert(are_heads(rows@, kept(self@.orders, passes(filter))));
        arrange(rows)
    }
}

// ---------------------------------------------------------------------------
// Sessions
// ---------------------------------------------------------------------------

impl Ordered for SessionView {
    /// The session that was opened last stands first.
    open spec fn precedes(a: Self, b: Self) -> bool {
        b.opened_at < a.opened_at
    }

    fn goes_before(&self, other: &Self) -> (r: bool) {
        other.opened_at < self.opened_at
    }
}

/// Which sessions are listed; the moments are in microseconds since the epoch,
/// and both count.
#[derive(Clone, Copy, Debug)]
pub struct SessionFilter {
    pub register_id: Option<u128>,
    pub status: Option<SessionStatus>,
    pub from: Option<i64>,
    pub to: Option<i64>,
}

pub open spec fn lets_through(f: SessionFilter) -> spec_fn(Session) -> bool {
    |s: Session|
        {
            &&& f.register_id matches Some(id) ==> s.register_id == id
            &&& f.status matches Some(st) ==> s.status == st
            &&& f.from matches Some(t) ==> t <= s.opened_at
            &&& f.to matches Some(t) ==> s.opened_at <= t
        }
}

pub open spec fn shows_sessions(
    rows: Seq<SessionView>,
    sessions: Seq<Session>,
    registers: Seq<Register>,
) -> bool {
    &&& rows.len() == sessions.len()
    &&& forall|i: int|
        0 <= i < rows.len() ==> shows_session(
            #[trigger] rows[i],
            sessions[i],
            first_where(registers, register_id(sessions[i].register_id)),
        )
}

fn show_session(s: &Session, registers: &Vec<Register>) -> (r: SessionView)
    ensures
        shows_session(r, *s, first_where(registers@, register_id(s.register_id))),
{
    match find_register(registers, s.register_id) {
        Some(i) => view_of(s, Some(&registers[i])),
        None => view_of(s, None),
    }
}

fn is_let_through(s: &Session, f: SessionFilter) -> (r: bool)
    ensures
        r == lets_through(f)(*s),
{
    let on_register = match f.register_id {
        Some(id) => s.register_id == id,
        None => true,
    };
    let in_status = match f.status {
        Some(st) => s.status == st,
        None => true,
    };
    let not_before = match f.from {
        Some(t) => t <= s.opened_at,
        None => true,
    };
    let not_after = match f.to {
        Some(t) => s.opened_at <= t,
        None => true,
    };
    on_register && in_status && not_before && not_after
}

impl SessionService {
    /// The sessions that a filter lets pass, the one that was opened last first.
    pub fn list(&self, registers: &Vec<Register>, filter: SessionFilter) -> (r: Vec<SessionView>)
        ensures
            exists|rows: Seq<SessionView>|
                #[trigger] shows_sessions(
                    rows,
                    kept(self.sessions@, lets_through(filter)),
                    registers@,
                ) && r@ == arranged(rows),
    {
        let mut rows: Vec<SessionView> = Vec::new();
        let mut i: usize = 0;
        while i < self.sessions.len()
            invariant
                i <= self.sessions.len(),
                shows_sessions(
                    rows@,
                    kept_to(self.sessions@, lets_through(filter), i as nat),
                    registers@,
                ),
            decreases self.sessions.len() - i,
        {
            if is_let_through(&self.sessions[i], filter) {
                rows.push(show_session(&self.sessions[i], registers));
            }
            i = i + 1;
        }
        assert(shows_sessions(rows@, kept(self.sessions@, lets_through(filter)), registers@));
        arrange(rows)
    }

    /// Show a session.
    pub fn view(&self, registers: &Vec<Register>, id: u128) -> (r: Result<SessionView, Error>)
        ensures
            match first_where(self.sessions@, session_id(id)) {
                None => refusal(r) == Some(Refusal::NotFound("pos session "@ + id_text(id))),
                Some(s) => r is Ok && shows_session(
                    r->Ok_0,
                    s,
                    first_where(registers@, register_id(s.register_id)),
                ),
            },
    {
        match find_session(&self.sessions, id) {
            None => Err(no_session(id)),
            Some(i) => Ok(show_session(&self.sessions[i], registers)),
        }
    }
}

} // verus!
