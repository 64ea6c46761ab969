//! Corrections of captured orders: refunds against their lines, and voids.
//!
//! A refund goes at the original prices: its money is the original line's, in
//! proportion, for the receipt is the contract. No line can be refunded beyond
//! what is left of it. A void marks an order, and only while its session is
//! still open and nothing was refunded of it.

use super::checkout::{find_replay, replayed};
use super::pricing::copy_source;
use super::sale::{
    add_up, all_paid, all_priced, is_tender, known_tender, line_of, totals_of, written, Book,
    LineFacts, Naming, NewRefund, Order, OrderFacts, OrderKind, OrderLine, OrderStatus, Paid,
    Priced, PricedLine, RefundLineInput, SaleService, Stub, Sums, TenderInput, Ticket, Voiding,
};
use super::session::{check_open, not_open_refusal, session_id, Session, SessionStatus};
use crate::decimal::{
    divides, limit, max_places, minus, multiplies, normalized, opt, over, plain_text, pow10,
    representable, rescaled, rounded, times, worth, zero, Decimal, Num,
};
use crate::error::{in_range, refusal, Error, Refusal};
use crate::scm::inventory::item::{find_item_by_id, item_id, Item};
use crate::scm::inventory::stock::round_money;
use crate::search::{any, find_viewed, first_from, first_where, lemma_first_from};
use crate::sums::{
    kept_places, lemma_combined_exact, lemma_mass_grows, lemma_pow10_adds, lemma_pow10_positive,
    lemma_rounded_below, lemma_rounded_worth, lemma_total_exact, lemma_total_push,
    lemma_worth_agrees, lemma_worth_rescaled, lemma_worth_sign, mass_to, picked_to, quotient_of,
    rounded_of, sum_of, summable, total, worth_of,
};
use crate::text::{
    cat2, cat3, cat5, digits, id_text, is_blank, opt_text, quote, quoted, show_id, show_nat, trim,
    trimmed,
};
use vstd::prelude::*;

verus! {

pub open spec fn order_id(id: u128) -> spec_fn(OrderFacts) -> bool {
    |o: OrderFacts| o.id == id
}

/// Whether an order is a refund of another one that still stands.
pub open spec fn refunds(o: OrderFacts, original: u128) -> bool {
    o.refund_of_id == Some(original) && o.status == OrderStatus::Captured
}

/// Whether a stored line takes something of another line back.
pub open spec fn takes_back(orders: Seq<OrderFacts>, l: LineFacts, original: u128, line: u128) -> bool {
    l.refund_of_line_id == Some(line) && any(
        orders,
        |o: OrderFacts| o.id == l.order_id && refunds(o, original),
    )
}

/// The quantities that the first `n` stored lines take back of a line.
pub open spec fn taken_back_to(book: Book, original: u128, line: u128, n: nat) -> Seq<Num> {
    picked_to(
        book.lines,
        |l: LineFacts| takes_back(book.orders, l, original, line),
        |l: LineFacts| l.qty,
        n,
    )
}

/// The quantities that standing refunds have taken back of a line.
pub open spec fn taken_back(book: Book, original: u128, line: u128) -> Seq<Num> {
    taken_back_to(book, original, line, book.lines.len())
}

/// The quantities that the first `n` lines of a refund ask back of a line.
pub open spec fn asked_to(lines: Seq<RefundLineInput>, line: u128, n: nat) -> Seq<Num> {
    picked_to(
        lines,
        |l: RefundLineInput| l.line_id == line,
        |l: RefundLineInput| l.qty@,
        n,
    )
}

pub open spec fn line_within(original: u128, id: u128) -> spec_fn(LineFacts) -> bool {
    |l: LineFacts| l.order_id == original && l.id == id
}

/// The line of an order with that id.
pub open spec fn original_line(book: Book, original: u128, id: u128) -> Option<LineFacts> {
    first_where(book.lines, line_within(original, id))
}

pub open spec fn at_refund(n: int) -> Seq<char> {
    "refund line "@ + digits(n as nat)
}

/// The part of an amount that falls to a part of a quantity, to the cent.
pub open spec fn share(amount: Num, part: Num, whole: Num) -> Option<Num> {
    if whole.0 == 0 {
        Some(zero())
    } else {
        rounded_of(quotient_of(times(amount, part), Some(whole)), 2)
    }
}

/// Why the line with number `n` of a refund is refused, where it is: it must
/// belong to the sale, be positive, and not exceed what is left of the line.
pub open spec fn refund_line_refusal(
    book: Book,
    items: Seq<Item>,
    new: NewRefund,
    n: int,
) -> Option<Refusal> {
    let asked = new.lines@[n - 1];
    match original_line(book, new.original_id, asked.line_id) {
        None => Some(
            Refusal::Validation(at_refund(n) + " does not belong to the original sale"@),
        ),
        Some(ol) => if asked.qty@.0 <= 0 {
            Some(Refusal::Validation(at_refund(n) + ": quantity must be positive"@))
        } else {
            let prior = total(taken_back(book, new.original_id, ol.id));
            let taken = total(asked_to(new.lines@, ol.id, n as nat));
            match sum_of(prior, taken) {
                None => Some(Refusal::Overflow),
                Some(gone) => if worth(ol.qty) < worth(gone) {
                    match minus(ol.qty, prior->0) {
                        None => Some(Refusal::Overflow),
                        Some(left) => Some(
                            Refusal::Validation(
                                at_refund(n) + ": only "@ + plain_text(normalized(left)) + " of "@
                                    + ol.description + " left to refund"@,
                            ),
                        ),
                    }
                } else if first_where(items, item_id(ol.item_id)) is None {
                    Some(Refusal::Internal("order line without an item"@))
                } else {
                    None
                },
            }
        },
    }
}

/// The first refusal among the first `n` lines of a refund.
pub open spec fn refund_lines_refusal(
    book: Book,
    items: Seq<Item>,
    new: NewRefund,
    n: nat,
) -> Option<Refusal>
    decreases n,
{
    if n == 0 {
        None
    } else {
        match refund_lines_refusal(book, items, new, (n - 1) as nat) {
            Some(r) => Some(r),
            None => refund_line_refusal(book, items, new, n as int),
        }
    }
}

/// A line of a refund: what it takes back, at the original's price, with its
/// share of the original's money. `None` where an amount leaves the range.
pub open spec fn refund_line(
    book: Book,
    items: Seq<Item>,
    original: u128,
    asked: RefundLineInput,
) -> Option<Priced> {
    let ol = original_line(book, original, asked.line_id)->0;
    let item = first_where(items, item_id(ol.item_id))->0;
    match (share(ol.net, asked.qty@, ol.qty), share(ol.tax_amount, asked.qty@, ol.qty)) {
        (Some(gross), Some(tax)) => Some(
            Priced {
                item_id: item.id,
                description: item.name@,
                sales_tax_code_id: item.sales_tax_code_id,
                qty: asked.qty@,
                unit_price: ol.unit_price,
                price_source: ol.price_source,
                discount_pct: ol.discount_pct,
                batch_id: ol.batch_id,
                drift: false,
                refund_of_line_id: Some(ol.id),
                tax_code_id: ol.tax_code_id,
                gross,
                tax,
            },
        ),
        _ => None,
    }
}

/// The first `n` lines of a refund.
pub open spec fn refund_lines_to(
    book: Book,
    items: Seq<Item>,
    original: u128,
    lines: Seq<RefundLineInput>,
    n: nat,
) -> Option<Seq<Priced>>
    decreases n,
{
    if n == 0 {
        Some(Seq::empty())
    } else {
        match (
            refund_lines_to(book, items, original, lines, (n - 1) as nat),
            refund_line(book, items, original, lines[n - 1]),
        ) {
            (Some(rest), Some(l)) => Some(rest.push(l)),
            _ => None,
        }
    }
}

/// What a refund comes to.
pub struct Returned {
    pub original: OrderFacts,
    pub lines: Seq<Priced>,
    pub sums: Sums,
}

/// Why a refund is refused before its lines are looked at, where it is.
pub open spec fn refund_form_refusal(book: Book, sessions: Seq<Session>, new: NewRefund) -> Option<
    Refusal,
> {
    if let Some(r) = not_open_refusal(
        sessions,
        new.session_id,
        "the session is not open; open a session before refunding"@,
    ) {
        Some(r)
    } else if !is_tender(new.tender@) {
        Some(
            Refusal::Validation(
                "unknown tender "@ + quoted(new.tender@) + " (expected one of cash, mpesa, card)"@,
            ),
        )
    } else {
        match first_where(book.orders, order_id(new.original_id)) {
            None => Some(Refusal::NotFound("pos order "@ + id_text(new.original_id))),
            Some(o) => if o.kind != OrderKind::Sale {
                Some(Refusal::Validation("only a sale can be refunded"@))
            } else if o.status != OrderStatus::Captured {
                Some(Refusal::Validation("a voided sale cannot be refunded"@))
            } else if new.lines@.len() == 0 {
                Some(Refusal::Validation("a refund needs at least one line"@))
            } else {
                None
            },
        }
    }
}

/// What a refund comes to, or why it is refused.
pub open spec fn returned(
    book: Book,
    items: Seq<Item>,
    sessions: Seq<Session>,
    new: NewRefund,
) -> Result<Returned, Refusal> {
    if let Some(r) = refund_form_refusal(book, sessions, new) {
        Err(r)
    } else if let Some(r) = refund_lines_refusal(book, items, new, new.lines@.len()) {
        Err(r)
    } else {
        match refund_lines_to(book, items, new.original_id, new.lines@, new.lines@.len()) {
            None => Err(Refusal::Overflow),
            Some(lines) => match totals_of(lines) {
                None => Err(Refusal::Overflow),
                Some(sums) => Ok(
                    Returned {
                        original: first_where(book.orders, order_id(new.original_id))->0,
                        lines,
                        sums,
                    },
                ),
            },
        }
    }
}

/// The ticket of a refund that is captured at `now`.
pub open spec fn refund_stub(new: NewRefund, r: Returned, now: i64) -> Stub {
    Stub {
        client_uuid: new.client_uuid,
        session_id: new.session_id,
        kind: OrderKind::Refund,
        customer_id: r.original.customer_id,
        sold_at: now,
        currency: r.original.currency,
        sums: r.sums,
        refund_of_id: Some(new.original_id),
        captured_offline: false,
        price_drift: false,
        capture_seconds: None,
        input_count: None,
        created_by: new.created_by,
    }
}

/// The one tender of a refund: all of it, by the tender that was asked for.
pub open spec fn refund_tender(new: NewRefund, r: Returned) -> Paid {
    Paid {
        tender: new.tender@,
        amount: r.sums.total,
        tendered: None,
        reference: opt_text(new.reference),
    }
}

// ---------------------------------------------------------------------------
// Refusals that stand
// ---------------------------------------------------------------------------

proof fn lemma_lines_stop(book: Book, items: Seq<Item>, new: NewRefund, i: nat, n: nat)
    requires
        i <= n,
        refund_lines_refusal(book, items, new, i) is Some,
    ensures
        refund_lines_refusal(book, items, new, n) == refund_lines_refusal(book, items, new, i),
    decreases n,
{
    if i < n {
        lemma_lines_stop(book, items, new, i, (n - 1) as nat);
    }
}

proof fn lemma_lines_passed(book: Book, items: Seq<Item>, new: NewRefund, i: nat, n: nat)
    requires
        i <= n,
        refund_lines_refusal(book, items, new, n) is None,
    ensures
        refund_lines_refusal(book, items, new, i) is None,
    decreases n,
{
    if i < n {
        lemma_lines_passed(book, items, new, i, (n - 1) as nat);
    }
}

proof fn lemma_refund_stops(
    book: Book,
    items: Seq<Item>,
    original: u128,
    lines: Seq<RefundLineInput>,
    i: nat,
    n: nat,
)
    requires
        i <= n,
        refund_lines_to(book, items, original, lines, i) is None,
    ensures
        refund_lines_to(book, items, original, lines, n) is None,
    decreases n,
{
    if i < n {
        lemma_refund_stops(book, items, original, lines, i, (n - 1) as nat);
    }
}

proof fn lemma_refund_len(
    book: Book,
    items: Seq<Item>,
    original: u128,
    lines: Seq<RefundLineInput>,
    n: nat,
)
    ensures
        refund_lines_to(book, items, original, lines, n) matches Some(ls) ==> ls.len() == n
            && forall|i: int|
            0 <= i < n ==> Some(#[trigger] ls[i]) == refund_line(book, items, original, lines[i]),
    decreases n,
{
    if n > 0 {
        lemma_refund_len(book, items, original, lines, (n - 1) as nat);
    }
}

// ---------------------------------------------------------------------------
// Looking at the book
// ---------------------------------------------------------------------------

pub(crate) fn find_order(orders: &Vec<Order>, id: u128) -> (r: Option<usize>)
    ensures
        ({
            let all = orders@.map_values(|o: Order| o@);
            match r {
                Some(i) => i < orders@.len() && first_from(all, order_id(id), 0) == Some(i as int),
                None => first_where(all, order_id(id)) is None,
            }
        }),
{
    find_viewed(orders, Ghost(order_id(id)), |x: &Order| -> (b: bool)
        ensures
            b == order_id(id)(x@),
        { x.id == id })
}

/// Whether some standing refund of an order has that id.
fn is_standing_refund(orders: &Vec<Order>, original: u128, id: u128) -> (r: bool)
    ensures
        r == any(
            orders@.map_values(|o: Order| o@),
            |o: OrderFacts| o.id == id && refunds(o, original),
        ),
{
    let ghost all = orders@.map_values(|o: Order| o@);
    let mut i: usize = 0;
    while i < orders.len()
        invariant
            i <= orders.len(),
            all == orders@.map_values(|o: Order| o@),
            forall|j: int|
                0 <= j < i ==> !((#[trigger] all[j]).id == id && refunds(all[j], original)),
        decreases orders.len() - i,
    {
        assert(all[i as int] == orders@[i as int]@);
        if orders[i].id == id && orders[i].refund_of_id == Some(original) && orders[i].status
            == OrderStatus::Captured {
            assert(all[i as int].id == id && refunds(all[i as int], original));
            return true;
        }
        i = i + 1;
    }
    false
}

/// Whether anything of an order was refunded, and stands.
fn has_refunds(orders: &Vec<Order>, original: u128) -> (r: bool)
    ensures
        r == any(
            orders@.map_values(|o: Order| o@),
            |o: OrderFacts| refunds(o, original),
        ),
{
    let ghost all = orders@.map_values(|o: Order| o@);
    let mut i: usize = 0;
    while i < orders.len()
        invariant
            i <= orders.len(),
            all == orders@.map_values(|o: Order| o@),
            forall|j: int| 0 <= j < i ==> !refunds(#[trigger] all[j], original),
        decreases orders.len() - i,
    {
        assert(all[i as int] == orders@[i as int]@);
        if orders[i].refund_of_id == Some(original) && orders[i].status == OrderStatus::Captured {
            assert(refunds(all[i as int], original));
            return true;
        }
        i = i + 1;
    }
    false
}

fn find_line(lines: &Vec<OrderLine>, original: u128, id: u128) -> (r: Option<usize>)
    ensures
        ({
            let all = lines@.map_values(|l: OrderLine| l@);
            match r {
                Some(i) => i < lines@.len() && first_where(all, line_within(original, id)) == Some(
                    lines@[i as int]@,
                ),
                None => first_where(all, line_within(original, id)) is None,
            }
        }),
{
    find_viewed(lines, Ghost(line_within(original, id)), |x: &OrderLine| -> (b: bool)
        ensures
            b == line_within(original, id)(x@),
        { x.order_id == original && x.id == id })
}

fn asked_total(lines: &Vec<RefundLineInput>, line: u128, n: usize) -> (r: Option<Decimal>)
    requires
        n <= lines@.len(),
    ensures
        opt(r) == total(asked_to(lines@, line, n as nat)),
{
    let mut sum: Option<Decimal> = Some(Decimal::zero());
    let mut i: usize = 0;
    while i < n
        invariant
            i <= n <= lines.len(),
            opt(sum) == total(asked_to(lines@, line, i as nat)),
        decreases n - i,
    {
        if lines[i].line_id == line {
            proof {
                lemma_total_push(asked_to(lines@, line, i as nat), lines@[i as int].qty@);
            }
            sum = match sum {
                Some(s) => s.checked_add(lines[i].qty),
                None => None,
            };
        }
        i = i + 1;
    }
    sum
}

impl SaleService {
    /// What standing refunds have taken back of a line so far.
    pub fn refunded_quantity(&self, original: u128, line: u128) -> (r: Result<Decimal, Error>)
        ensures
            match total(taken_back(self@, original, line)) {
                Some(n) => r is Ok && r->Ok_0@ == n,
                None => refusal(r) == Some(Refusal::Overflow),
            },
    {
        let ghost book = self@;
        let mut sum: Option<Decimal> = Some(Decimal::zero());
        let mut i: usize = 0;
        while i < self.lines.len()
            invariant
                i <= self.lines.len(),
                book == self@,
                opt(sum) == total(taken_back_to(book, original, line, i as nat)),
            decreases self.lines.len() - i,
        {
            let l = &self.lines[i];
            assert(book.lines[i as int] == l@);
            if l.refund_of_line_id == Some(line) && is_standing_refund(
                &self.orders,
                original,
                l.order_id,
            ) {
                assert(takes_back(book.orders, book.lines[i as int], original, line));
                proof {
                    lemma_total_push(taken_back_to(book, original, line, i as nat), l.qty@);
                }
                sum = match sum {
                    Some(s) => s.checked_add(l.qty),
                    None => None,
                };
            } else {
                assert(!takes_back(book.orders, book.lines[i as int], original, line));
            }
            i = i + 1;
        }
        in_range(sum)
    }

    fn check_refund_line(&self, items: &Vec<Item>, new: &NewRefund, i: usize) -> (r: Result<
        (),
        Error,
    >)
        requires
            i < new.lines.len(),
        ensures
            refusal(r) == refund_line_refusal(self@, items@, *new, i + 1),
    {
        let asked = new.lines[i];
        let shown = show_nat((i + 1) as u64);
        let head = cat2("refund line ", shown.as_str());
        let ol = match find_line(&self.lines, new.original_id, asked.line_id) {
            Some(k) => &self.lines[k],
            None => {
                return Err(
                    Error::Validation(cat2(head.as_str(), " does not belong to the original sale")),
                );
            },
        };
        if !asked.qty.is_positive() {
            return Err(Error::Validation(cat2(head.as_str(), ": quantity must be positive")));
        }
        let prior = self.refunded_quantity(new.original_id, ol.id)?;
        let taken = in_range(asked_total(&new.lines, ol.id, i + 1))?;
        let gone = in_range(prior.checked_add(taken))?;
        if ol.qty.less(&gone) {
            let left = in_range(ol.qty.checked_sub(prior))?.normalize().text();
            let said = cat5(
                head.as_str(),
                ": only ",
                left.as_str(),
                " of ",
                ol.description.as_str(),
            );
            return Err(Error::Validation(cat2(said.as_str(), " left to refund")));
        }
        if find_item_by_id(items, ol.item_id).is_none() {
            return Err(Error::Internal("order line without an item".to_owned()));
        }
        Ok(())
    }

    fn check_refund_lines(&self, items: &Vec<Item>, new: &NewRefund) -> (r: Result<(), Error>)
        ensures
            refusal(r) == refund_lines_refusal(self@, items@, *new, new.lines@.len()),
    {
        let mut i: usize = 0;
        while i < new.lines.len()
            invariant
                i <= new.lines.len(),
                refund_lines_refusal(self@, items@, *new, i as nat) is None,
            decreases new.lines.len() - i,
        {
            proof {
                if refund_lines_refusal(self@, items@, *new, (i + 1) as nat) is Some {
                    lemma_lines_stop(self@, items@, *new, (i + 1) as nat, new.lines@.len());
                }
            }
            self.check_refund_line(items, new, i)?;
            i = i + 1;
        }
        Ok(())
    }

    fn make_refund_lines(&self, items: &Vec<Item>, new: &NewRefund) -> (r: Result<
        Vec<PricedLine>,
        Error,
    >)
        requires
            refund_lines_refusal(self@, items@, *new, new.lines@.len()) is None,
        ensures
            match refund_lines_to(
                self@,
                items@,
                new.original_id,
                new.lines@,
                new.lines@.len(),
            ) {
                Some(lines) => r is Ok && all_priced(r->Ok_0@) == lines,
                None => refusal(r) == Some(Refusal::Overflow),
            },
    {
        let ghost book = self@;
        let mut out: Vec<PricedLine> = Vec::new();
        assert(all_priced(out@) =~= Seq::empty());
        let mut i: usize = 0;
        while i < new.lines.len()
            invariant
                i <= new.lines.len(),
                book == self@,
                refund_lines_refusal(book, items@, *new, new.lines@.len()) is None,
                refund_lines_to(book, items@, new.original_id, new.lines@, i as nat) == Some(
                    all_priced(out@),
                ),
            decreases new.lines.len() - i,
        {
            proof {
                lemma_lines_passed(book, items@, *new, (i + 1) as nat, new.lines@.len());
                if refund_lines_to(
                    book,
                    items@,
                    new.original_id,
                    new.lines@,
                    (i + 1) as nat,
                ) is None {
                    lemma_refund_stops(
                        book,
                        items@,
                        new.original_id,
                        new.lines@,
                        (i + 1) as nat,
                        new.lines@.len(),
                    );
                }
            }
            let asked = new.lines[i];
            if let Some(k) = find_line(&self.lines, new.original_id, asked.line_id) {
                let ol = &self.lines[k];
                if let Some(m) = find_item_by_id(items, ol.item_id) {
                    let item = &items[m];
                    let gross = in_range(share_of(ol.net, asked.qty, ol.qty))?;
                    let tax = in_range(share_of(ol.tax_amount, asked.qty, ol.qty))?;
                    let line = PricedLine {
                        item_id: item.id,
                        description: item.name.clone(),
                        sales_tax_code_id: item.sales_tax_code_id,
                        qty: asked.qty,
                        unit_price: ol.unit_price,
                        price_source: copy_source(&ol.price_source),
                        discount_pct: ol.discount_pct,
                        batch_id: ol.batch_id,
                        drift: false,
                        refund_of_line_id: Some(ol.id),
                        tax_code_id: ol.tax_code_id,
                        computed_gross: gross,
                        computed_tax: tax,
                    };
                    let ghost held = all_priced(out@);
                    out.push(line);
                    assert(all_priced(out@) =~= held.push(line@));
                }
            }
            i = i + 1;
        }
        Ok(out)
    }

    /// Refund part or all of a captured sale, at the original prices. The
    /// money leaves the session that captures the refund, at `now`. The result
    /// is the refund's id; a replay finds the refund already written. A
    /// refused refund writes nothing.
    pub fn refund(
        &mut self,
        items: &Vec<Item>,
        sessions: &Vec<Session>,
        new: NewRefund,
        now: i64,
        naming: Naming,
    ) -> (r: Result<u128, Error>)
        requires
            naming.line_ids@.len() == new.lines@.len(),
        ensures
            match first_where(old(self)@.orders, replayed(new.client_uuid)) {
                Some(o) => r == Ok::<u128, Error>(o.id) && *final(self) == *old(self),
                None => match returned(old(self)@, items@, sessions@, new) {
                    Err(why) => refusal(r) == Some(why) && *final(self) == *old(self),
                    Ok(back) => r == Ok::<u128, Error>(naming.id) && final(self)@ == written(
                        old(self)@,
                        refund_stub(new, back, now),
                        back.lines,
                        seq![refund_tender(new, back)],
                        naming.id,
                        naming.number@,
                        naming.line_ids@,
                    ),
                },
            },
    {
        if let Some(i) = find_replay(&self.orders, new.client_uuid) {
            return Ok(self.orders[i].id);
        }
        let _ = check_open(
            sessions,
            new.session_id,
            "the session is not open; open a session before refunding",
        )?;
        if !known_tender(new.tender.as_str()) {
            let shown = quote(new.tender.as_str());
            return Err(
                Error::Validation(
                    cat3(
                        "unknown tender ",
                        shown.as_str(),
                        " (expected one of cash, mpesa, card)",
                    ),
                ),
            );
        }
        let k = match find_order(&self.orders, new.original_id) {
            Some(k) => k,
            None => {
                return Err(no_order(new.original_id));
            },
        };
        assert(self@.orders[k as int] == self.orders@[k as int]@);
        if self.orders[k].kind != OrderKind::Sale {
            return Err(Error::Validation("only a sale can be refunded".to_owned()));
        }
        if self.orders[k].status != OrderStatus::Captured {
            return Err(Error::Validation("a voided sale cannot be refunded".to_owned()));
        }
        if new.lines.len() == 0 {
            return Err(Error::Validation("a refund needs at least one line".to_owned()));
        }
        self.check_refund_lines(items, &new)?;
        let lines = self.make_refund_lines(items, &new)?;
        proof {
            lemma_refund_len(self@, items@, new.original_id, new.lines@, new.lines@.len());
        }
        let totals = add_up(&lines)?;
        let id = naming.id;
        let ticket = Ticket {
            client_uuid: new.client_uuid,
            session_id: new.session_id,
            kind: OrderKind::Refund,
            customer_id: self.orders[k].customer_id,
            sold_at: now,
            currency: self.orders[k].currency.clone(),
            totals,
            refund_of_id: Some(new.original_id),
            captured_offline: false,
            price_drift: false,
            capture_seconds: None,
            input_count: None,
            created_by: new.created_by,
        };
        let tender = TenderInput {
            tender: new.tender,
            amount: totals.total,
            tendered: None,
            reference: new.reference,
        };
        let mut tenders: Vec<TenderInput> = Vec::new();
        tenders.push(tender);
        assert(all_paid(tenders@) =~= seq![tender@]);
        self.insert_order(ticket, &lines, &tenders, naming);
        Ok(id)
    }
}

pub(crate) fn no_order(id: u128) -> (r: Error)
    ensures
        r@ == Refusal::NotFound("pos order "@ + id_text(id)),
{
    let shown = show_id(id);
    Error::NotFound(cat2("pos order ", shown.as_str()))
}

fn share_of(amount: Decimal, part: Decimal, whole: Decimal) -> (r: Option<Decimal>)
    ensures
        opt(r) == share(amount@, part@, whole@),
{
    if whole.is_zero() {
        return Some(Decimal::zero());
    }
    match amount.checked_mul(part) {
        None => None,
        Some(product) => match product.checked_div(whole) {
            None => None,
            Some(quotient) => Some(round_money(quotient)),
        },
    }
}

// ---------------------------------------------------------------------------
// Voids
// ---------------------------------------------------------------------------

/// Why an order cannot be voided, where it cannot.
pub open spec fn void_refusal(
    book: Book,
    sessions: Seq<Session>,
    id: u128,
    reason: Seq<char>,
) -> Option<Refusal> {
    if is_blank(reason) {
        Some(Refusal::Validation("a void needs a reason"@))
    } else {
        match first_where(book.orders, order_id(id)) {
            None => Some(Refusal::NotFound("pos order "@ + id_text(id))),
            Some(o) => if o.status != OrderStatus::Captured {
                Some(Refusal::Validation("the order is already voided"@))
            } else if let Some(r) = not_open_refusal(
                sessions,
                o.session_id,
                "the session has closed; correct with a refund instead of a void"@,
            ) {
                Some(r)
            } else if any(book.orders, |other: OrderFacts| refunds(other, id)) {
                Some(
                    Refusal::Validation(
                        "the order has refunds against it and can no longer be voided"@,
                    ),
                )
            } else {
                None
            },
        }
    }
}

/// The book with one order marked as voided, and nothing else changed.
pub open spec fn voided(book: Book, id: u128, reason: Seq<char>, by: Option<u128>, now: i64) -> Book {
    let i = first_from(book.orders, order_id(id), 0)->0;
    let marked = OrderFacts {
        status: OrderStatus::Voided,
        voided: Some((now, by, trimmed(reason))),
        ..book.orders[i]
    };
    Book { orders: book.orders.update(i, marked), ..book }
}

impl SaleService {
    /// Void a captured order: only while its session is still open, and only
    /// when no refund refers to it. A refused void changes nothing.
    pub fn void(
        &mut self,
        sessions: &Vec<Session>,
        id: u128,
        why: &str,
        by: Option<u128>,
        now: i64,
    ) -> (r: Result<(), Error>)
        ensures
            refusal(r) == void_refusal(old(self)@, sessions@, id, why@),
            r is Err ==> *final(self) == *old(self),
            r is Ok ==> final(self)@ == voided(old(self)@, id, why@, by, now),
    {
        let reason = trim(why);
        if reason.as_str().unicode_len() == 0 {
            return Err(Error::Validation("a void needs a reason".to_owned()));
        }
        let i = match find_order(&self.orders, id) {
            Some(i) => i,
            None => {
                return Err(no_order(id));
            },
        };
        assert(self@.orders[i as int] == self.orders@[i as int]@);
        if self.orders[i].status != OrderStatus::Captured {
            return Err(Error::Validation("the order is already voided".to_owned()));
        }
        let _ = check_open(
            sessions,
            self.orders[i].session_id,
            "the session has closed; correct with a refund instead of a void",
        )?;
        if has_refunds(&self.orders, id) {
            return Err(
                Error::Validation(
                    "the order has refunds against it and can no longer be voided".to_owned(),
                ),
            );
        }
        let ghost before = self@;
        let row = &mut self.orders[i];
        row.status = OrderStatus::Voided;
        row.voided = Some(Voiding { at: now, by, reason });
        assert(self@.orders =~= voided(before, id, why@, by, now).orders);
        Ok(())
    }
}

// ---------------------------------------------------------------------------
// Laws
// ---------------------------------------------------------------------------

/// Refunding the whole quantity of a line gives all of its money back, to the
/// cent, where the product of the two can be held.
pub proof fn full_refunds_return_the_money(amount: Num, qty: Num)
    requires
        amount.1 <= 2,
        qty.0 > 0,
        multiplies(amount, qty),
    ensures
        share(amount, qty, qty) is Some,
        worth(share(amount, qty, qty)->0) == worth(amount),
{
    if amount.0 == 0 {
        lemma_worth_sign(amount);
        lemma_worth_sign(zero());
    } else {
        let a = amount.0;
        let q = qty.0;
        assert(a * q != 0) by (nonlinear_arith)
            requires
                a != 0,
                q > 0,
        ;
        vstd::arithmetic::div_mod::lemma_mod_multiples_basic(a, q);
        vstd::arithmetic::div_mod::lemma_div_multiples_vanish(a, q);
        assert(q * a == a * q) by (nonlinear_arith);
        assert(divides((a * q, amount.1 + qty.1), qty));
    }
}

/// Whether money is the part of an amount that a part is of a whole, to the cent.
pub open spec fn in_proportion(money: Num, amount: Num, part: Num, whole: Num) -> bool {
    times(amount, part) matches Some(product) && (over(product, whole) matches Some(q) && money
        == rounded(q, 2))
}

/// The line of a sale that a line of an accepted refund speaks of.
proof fn lemma_asked_line(
    book: Book,
    items: Seq<Item>,
    sessions: Seq<Session>,
    new: NewRefund,
    i: int,
    k: int,
)
    requires
        returned(book, items, sessions, new) is Ok,
        0 <= i < new.lines@.len(),
        0 <= k < book.lines.len(),
        book.lines[k].id == new.lines@[i].line_id,
        forall|j: int|
            0 <= j < book.lines.len() && j != k ==> (#[trigger] book.lines[j]).id
                != book.lines[k].id,
    ensures
        ({
            let back = returned(book, items, sessions, new)->Ok_0;
            &&& back.lines.len() == new.lines@.len()
            &&& book.lines[k].order_id == new.original_id
            &&& original_line(book, new.original_id, new.lines@[i].line_id) == Some(book.lines[k])
            &&& Some(back.lines[i]) == refund_line(book, items, new.original_id, new.lines@[i])
            &&& refund_line_refusal(book, items, new, i + 1) is None
        }),
{
    lemma_refund_len(book, items, new.original_id, new.lines@, new.lines@.len());
    lemma_lines_passed(book, items, new, (i + 1) as nat, new.lines@.len());
    assert(refund_line_refusal(book, items, new, i + 1) is None);
    lemma_first_from(book.lines, line_within(new.original_id, new.lines@[i].line_id), 0);
}

/// A refund goes at what was charged: each line that it writes takes back what was
/// asked of one line of the sale, and its money and its tax are those of that
/// line times the quantity taken back over the quantity sold, to the cent,
/// discounted or not. Lines are known by their ids.
pub proof fn refunds_give_back_what_was_charged(
    book: Book,
    items: Seq<Item>,
    sessions: Seq<Session>,
    new: NewRefund,
    now: i64,
    id: u128,
    number: Seq<char>,
    line_ids: Seq<u128>,
    i: int,
    k: int,
)
    requires
        returned(book, items, sessions, new) is Ok,
        0 <= i < new.lines@.len(),
        0 <= k < book.lines.len(),
        book.lines[k].id == new.lines@[i].line_id,
        forall|j: int|
            0 <= j < book.lines.len() && j != k ==> (#[trigger] book.lines[j]).id
                != book.lines[k].id,
        book.lines[k].qty.0 != 0,
    ensures
        ({
            let back = returned(book, items, sessions, new)->Ok_0;
            let after = written(
                book,
                refund_stub(new, back, now),
                back.lines,
                seq![refund_tender(new, back)],
                id,
                number,
                line_ids,
            );
            let sold = book.lines[k];
            let line = after.lines[book.lines.len() + i];
            let asked = new.lines@[i].qty@;
            &&& sold.order_id == new.original_id
            &&& after.lines.len() == book.lines.len() + new.lines@.len()
            &&& line.order_id == id
            &&& line.item_id == sold.item_id
            &&& line.refund_of_line_id == Some(sold.id)
            &&& line.batch_id == sold.batch_id
            &&& line.tax_code_id == sold.tax_code_id
            &&& line.qty == asked
            &&& line.unit_price == sold.unit_price
            &&& line.discount_pct == sold.discount_pct
            &&& in_proportion(line.net, sold.net, asked, sold.qty)
            &&& in_proportion(line.tax_amount, sold.tax_amount, asked, sold.qty)
        }),
{
    lemma_asked_line(book, items, sessions, new, i, k);
    lemma_first_from(items, item_id(book.lines[k].item_id), 0);
}

/// What is in proportion to a whole that was taken whole is all of the amount.
proof fn lemma_whole(money: Num, amount: Num, part: Num, whole: Num)
    requires
        amount.1 <= 2,
        part.0 > 0,
        whole.0 > 0,
        whole.1 <= part.1 <= max_places(),
        worth(part) == worth(whole),
        multiplies(amount, part),
        in_proportion(money, amount, part, whole),
    ensures
        worth(money) == worth(amount),
{
    let a = amount.0;
    let w = whole.0;
    let d = (part.1 - whole.1) as nat;
    let g = pow10(d);
    let f = pow10((max_places() - part.1) as nat);
    lemma_worth_sign(amount);
    lemma_worth_sign(zero());
    lemma_pow10_positive(d);
    lemma_pow10_positive((max_places() - part.1) as nat);
    lemma_worth_rescaled(whole, part.1);
    let p = part.0;
    assert(p == w * g) by (nonlinear_arith)
        requires
            p * f == (w * g) * f,
            f >= 1,
    ;
    if a != 0 {
        let n = a * p;
        assert(n != 0) by (nonlinear_arith)
            requires
                n == a * p,
                a != 0,
                p > 0,
        ;
        assert(n == w * (a * g) + 0) by (nonlinear_arith)
            requires
                n == a * p,
                p == w * g,
        ;
        assert(n == (a * g) * w + 0) by (nonlinear_arith)
            requires
                n == w * (a * g) + 0,
        ;
        vstd::arithmetic::div_mod::lemma_fundamental_div_mod_converse(n, w, a * g, 0);
        let product = (n, amount.1 + part.1);
        assert(divides(product, whole));
        let q = (a * g, (amount.1 + d) as nat);
        assert(over(product, whole) == Some(q));
        assert(q.1 <= max_places());
        lemma_worth_rescaled(amount, q.1);
        assert(rescaled(amount, q.1) == a * g);
        assert(worth(q) == worth(amount));
        lemma_rounded_worth(q, amount, 2);
    }
}

/// Refunding a whole line, discounted or not, gives back exactly the money that was
/// charged for it and exactly the tax in it. The money is in cents, and its
/// product with the quantity can be held.
pub proof fn whole_lines_are_refunded_whole(
    book: Book,
    items: Seq<Item>,
    sessions: Seq<Session>,
    new: NewRefund,
    i: int,
    k: int,
)
    requires
        returned(book, items, sessions, new) is Ok,
        0 <= i < new.lines@.len(),
        0 <= k < book.lines.len(),
        book.lines[k].id == new.lines@[i].line_id,
        forall|j: int|
            0 <= j < book.lines.len() && j != k ==> (#[trigger] book.lines[j]).id
                != book.lines[k].id,
        book.lines[k].qty.0 > 0,
        worth(new.lines@[i].qty@) == worth(book.lines[k].qty),
        book.lines[k].qty.1 <= new.lines@[i].qty@.1 <= max_places(),
        book.lines[k].net.1 <= 2,
        book.lines[k].tax_amount.1 <= 2,
        multiplies(book.lines[k].net, new.lines@[i].qty@),
        multiplies(book.lines[k].tax_amount, new.lines@[i].qty@),
    ensures
        ({
            let line = returned(book, items, sessions, new)->Ok_0.lines[i];
            &&& worth(line.gross) == worth(book.lines[k].net)
            &&& worth(line.tax) == worth(book.lines[k].tax_amount)
        }),
{
    let line = returned(book, items, sessions, new)->Ok_0.lines[i];
    let sold = book.lines[k];
    let asked = new.lines@[i].qty@;
    lemma_asked_line(book, items, sessions, new, i, k);
    lemma_whole(line.gross, sold.net, asked, sold.qty);
    lemma_whole(line.tax, sold.tax_amount, asked, sold.qty);
}

/// A share that comes out even is not more than the amount.
proof fn lemma_part(money: Num, amount: Num, part: Num, whole: Num)
    requires
        0 <= amount.0,
        amount.1 <= 2,
        part.0 > 0,
        whole.0 > 0,
        part.1 <= max_places(),
        whole.1 <= max_places(),
        worth(part) <= worth(whole),
        multiplies(amount, part),
        divides((amount.0 * part.0, amount.1 + part.1), whole),
        in_proportion(money, amount, part, whole),
    ensures
        0 <= worth(money) <= worth(amount),
{
    let a = amount.0;
    let p = part.0;
    let w = whole.0;
    lemma_worth_sign(zero());
    lemma_worth_sign(amount);
    if a != 0 {
        let n = a * p;
        assert(n > 0) by (nonlinear_arith)
            requires
                n == a * p,
                a > 0,
                p > 0,
        ;
        let product = (n, amount.1 + part.1);
        let c = n / w;
        let q = (c, (amount.1 + part.1 - whole.1) as nat);
        assert(over(product, whole) == Some(q));
        assert(q.1 <= max_places());
        vstd::arithmetic::div_mod::lemma_fundamental_div_mod(n, w);
        vstd::arithmetic::div_mod::lemma_div_pos_is_pos(n, w);
        let m: nat = max_places();
        let fq = pow10((m - q.1) as nat);
        let fa = pow10((m - amount.1) as nat);
        let fp = pow10((m - part.1) as nat);
        let fw = pow10((m - whole.1) as nat);
        lemma_pow10_positive((m - q.1) as nat);
        lemma_pow10_positive((m - amount.1) as nat);
        lemma_pow10_positive((m - part.1) as nat);
        lemma_pow10_positive((m - whole.1) as nat);
        lemma_pow10_adds((m - q.1) as nat, (m - whole.1) as nat);
        lemma_pow10_adds((m - amount.1) as nat, (m - part.1) as nat);
        assert((m - q.1) + (m - whole.1) == (m - amount.1) + (m - part.1));
        let x = fq * fw;
        assert(x == fa * fp);
        assert((c * fq) * (w * fw) == (a * fa) * (p * fp)) by (nonlinear_arith)
            requires
                c * w == a * p,
                fq * fw == fa * fp,
        ;
        assert(c * fq >= 0) by (nonlinear_arith)
            requires
                c >= 0,
                fq >= 1,
        ;
        let wq = c * fq;
        let wa = a * fa;
        let wp = p * fp;
        let ww = w * fw;
        assert(0 < wp) by (nonlinear_arith)
            requires
                wp == p * fp,
                p > 0,
                fp >= 1,
        ;
        assert(wq <= wa) by (nonlinear_arith)
            requires
                wq * ww == wa * wp,
                0 < wp <= ww,
                0 <= wq,
                0 <= wa,
        ;
        lemma_rounded_below(q, amount, 2);
    }
}

/// Refunding a part of a line never gives back more money or tax than the whole of
/// it was charged, where the share comes out even.
pub proof fn partial_refunds_never_exceed_the_charge(
    book: Book,
    items: Seq<Item>,
    sessions: Seq<Session>,
    new: NewRefund,
    i: int,
    k: int,
)
    requires
        returned(book, items, sessions, new) is Ok,
        0 <= i < new.lines@.len(),
        0 <= k < book.lines.len(),
        book.lines[k].id == new.lines@[i].line_id,
        forall|j: int|
            0 <= j < book.lines.len() && j != k ==> (#[trigger] book.lines[j]).id
                != book.lines[k].id,
        ({
            let sold = book.lines[k];
            let asked = new.lines@[i].qty@;
            &&& representable(sold.qty)
            &&& representable(asked)
            &&& worth(asked) <= worth(sold.qty)
            &&& 0 <= sold.net.0
            &&& 0 <= sold.tax_amount.0
            &&& sold.net.1 <= 2
            &&& sold.tax_amount.1 <= 2
            &&& multiplies(sold.net, asked)
            &&& multiplies(sold.tax_amount, asked)
            &&& divides((sold.net.0 * asked.0, sold.net.1 + asked.1), sold.qty)
            &&& divides((sold.tax_amount.0 * asked.0, sold.tax_amount.1 + asked.1), sold.qty)
        }),
    ensures
        ({
            let line = returned(book, items, sessions, new)->Ok_0.lines[i];
            &&& 0 <= worth(line.gross) <= worth(book.lines[k].net)
            &&& 0 <= worth(line.tax) <= worth(book.lines[k].tax_amount)
        }),
{
    let line = returned(book, items, sessions, new)->Ok_0.lines[i];
    let sold = book.lines[k];
    let asked = new.lines@[i].qty@;
    lemma_asked_line(book, items, sessions, new, i, k);
    lemma_worth_sign(asked);
    lemma_worth_sign(sold.qty);
    lemma_part(line.gross, sold.net, asked, sold.qty);
    lemma_part(line.tax, sold.tax_amount, asked, sold.qty);
}

/// A refund of a sale is itself never refunded: only sales can be.
pub proof fn refunds_are_final(
    book: Book,
    items: Seq<Item>,
    sessions: Seq<Session>,
    new: NewRefund,
)
    requires
        first_where(book.orders, order_id(new.original_id)) matches Some(o) && o.kind
            == OrderKind::Refund,
    ensures
        returned(book, items, sessions, new) is Err,
{
}

/// A voided order stays voided: it can be neither voided again nor refunded.
pub proof fn voids_are_final(
    book: Book,
    items: Seq<Item>,
    sessions: Seq<Session>,
    new: NewRefund,
    reason: Seq<char>,
)
    requires
        first_where(book.orders, order_id(new.original_id)) matches Some(o) && o.status
            == OrderStatus::Voided,
    ensures
        returned(book, items, sessions, new) is Err,
        void_refusal(book, sessions, new.original_id, reason) is Some,
{
}

/// The book of an accepted void has that order marked.
pub proof fn voiding_marks_the_order(
    book: Book,
    sessions: Seq<Session>,
    id: u128,
    reason: Seq<char>,
    by: Option<u128>,
    now: i64,
)
    requires
        void_refusal(book, sessions, id, reason) is None,
    ensures
        first_where(voided(book, id, reason, by, now).orders, order_id(id)) matches Some(o)
            && o.status == OrderStatus::Voided,
{
    let after = voided(book, id, reason, by, now).orders;
    lemma_first_from(book.orders, order_id(id), 0);
    lemma_first_from(after, order_id(id), 0);
    let i = first_from(book.orders, order_id(id), 0)->0;
    assert(order_id(id)(after[i]));
    assert forall|j: int| 0 <= j < i implies !order_id(id)(#[trigger] after[j]) by {
        assert(after[j] == book.orders[j]);
    }
}

proof fn lemma_asked_grows(lines: Seq<RefundLineInput>, line: u128, i: nat, n: nat)
    requires
        i <= n,
    ensures
        asked_to(lines, line, i).len() <= asked_to(lines, line, n).len(),
        forall|j: int|
            0 <= j < asked_to(lines, line, i).len() ==> asked_to(lines, line, i)[j] == asked_to(
                lines,
                line,
                n,
            )[j],
    decreases n,
{
    if i < n {
        lemma_asked_grows(lines, line, i, (n - 1) as nat);
    }
}

proof fn lemma_mass_agrees(s: Seq<Num>, t: Seq<Num>, p: nat, n: nat)
    requires
        forall|i: int| 0 <= i < n ==> s[i] == t[i],
    ensures
        mass_to(s, p, n) == mass_to(t, p, n),
    decreases n,
{
    if n > 0 {
        lemma_mass_agrees(s, t, p, (n - 1) as nat);
    }
}

/// The quantities of two sequences fit into a decimal together.
pub open spec fn fit_together(s: Seq<Num>, t: Seq<Num>) -> bool {
    &&& forall|i: int| 0 <= i < s.len() ==> (#[trigger] s[i]).1 <= kept_places()
    &&& forall|i: int| 0 <= i < t.len() ==> (#[trigger] t[i]).1 <= kept_places()
    &&& mass_to(s, kept_places(), s.len()) + mass_to(t, kept_places(), t.len()) < limit()
}

/// Whatever an accepted refund has asked back of a line up to some point fits
/// into what was left of it.
proof fn lemma_asked_fits(
    book: Book,
    items: Seq<Item>,
    new: NewRefund,
    line: LineFacts,
    n: nat,
)
    requires
        n <= new.lines@.len(),
        refund_lines_refusal(book, items, new, n) is None,
        original_line(book, new.original_id, line.id) == Some(line),
        fit_together(
            taken_back(book, new.original_id, line.id),
            asked_to(new.lines@, line.id, new.lines@.len()),
        ),
        worth_of(taken_back(book, new.original_id, line.id)) <= worth(line.qty),
    ensures
        worth_of(taken_back(book, new.original_id, line.id)) + worth_of(
            asked_to(new.lines@, line.id, n),
        ) <= worth(line.qty),
    decreases n,
{
    let p = kept_places();
    let prior = taken_back(book, new.original_id, line.id);
    let all = asked_to(new.lines@, line.id, new.lines@.len());
    let some = asked_to(new.lines@, line.id, n);
    if n > 0 {
        lemma_asked_fits(book, items, new, line, (n - 1) as nat);
        if new.lines@[n - 1].line_id == line.id {
            lemma_asked_grows(new.lines@, line.id, n, new.lines@.len());
            lemma_mass_agrees(some, all, p, some.len());
            lemma_mass_grows(all, p, some.len(), all.len());
            lemma_mass_grows(prior, p, prior.len(), prior.len());
            lemma_mass_grows(some, p, some.len(), some.len());
            assert(summable(prior));
            assert(summable(some)) by {
                assert forall|i: int| 0 <= i < some.len() implies (#[trigger] some[i]).1 <= p by {
                    assert(some[i] == all[i]);
                }
            }
            lemma_total_exact(prior);
            lemma_total_exact(some);
            lemma_combined_exact(
                total(prior)->0,
                total(some)->0,
                1,
                p,
                mass_to(prior, p, prior.len()),
                mass_to(some, p, some.len()),
            );
            assert(refund_line_refusal(book, items, new, n as int) is None);
        }
    }
}

/// No sequence of refunds takes more of a line back than was sold of it: where
/// what stood so far does not exceed it, an accepted refund keeps it so.
/// Quantities carry at most six places and fit into a decimal together, and a
/// refund gets an id that no order has yet.
pub proof fn refunds_never_exceed_the_sale(
    book: Book,
    items: Seq<Item>,
    sessions: Seq<Session>,
    new: NewRefund,
    now: i64,
    id: u128,
    number: Seq<char>,
    line_ids: Seq<u128>,
    line: LineFacts,
)
    requires
        returned(book, items, sessions, new) is Ok,
        original_line(book, new.original_id, line.id) == Some(line),
        fit_together(
            taken_back(book, new.original_id, line.id),
            asked_to(new.lines@, line.id, new.lines@.len()),
        ),
        worth_of(taken_back(book, new.original_id, line.id)) <= worth(line.qty),
        forall|i: int| 0 <= i < book.orders.len() ==> (#[trigger] book.orders[i]).id != id,
        forall|i: int| 0 <= i < book.lines.len() ==> (#[trigger] book.lines[i]).order_id != id,
    ensures
        ({
            let back = returned(book, items, sessions, new)->Ok_0;
            let after = written(
                book,
                refund_stub(new, back, now),
                back.lines,
                seq![refund_tender(new, back)],
                id,
                number,
                line_ids,
            );
            worth_of(taken_back(after, new.original_id, line.id)) <= worth(line.qty)
        }),
{
    let back = returned(book, items, sessions, new)->Ok_0;
    let after = written(
        book,
        refund_stub(new, back, now),
        back.lines,
        seq![refund_tender(new, back)],
        id,
        number,
        line_ids,
    );
    lemma_asked_fits(book, items, new, line, new.lines@.len());
    lemma_refund_len(book, items, new.original_id, new.lines@, new.lines@.len());
    lemma_old_lines_kept(book, after, new.original_id, line.id, id, book.lines.len());
    lemma_new_lines_counted(
        book,
        items,
        new,
        back,
        after,
        line,
        id,
        line_ids,
        new.lines@.len(),
    );
    let prior = taken_back(book, new.original_id, line.id);
    let asked = asked_to(new.lines@, line.id, new.lines@.len());
    lemma_worth_appends(prior, asked);
    assert(after.lines.len() == book.lines.len() + new.lines@.len());
}

proof fn lemma_worth_appends(s: Seq<Num>, t: Seq<Num>)
    ensures
        worth_of(s + t) == worth_of(s) + worth_of(t),
    decreases t.len(),
{
    if t.len() == 0 {
        assert(s + t =~= s);
    } else {
        let rest = t.drop_last();
        lemma_worth_appends(s, rest);
        lemma_worth_agrees(s + t, s + rest, (s.len() + rest.len()) as nat);
        lemma_worth_agrees(t, rest, rest.len());
        assert((s + t)[s.len() + t.len() - 1] == t[t.len() - 1]);
    }
}

/// What the lines of old orders take back does not change with a new order.
proof fn lemma_old_lines_kept(
    book: Book,
    after: Book,
    original: u128,
    line: u128,
    id: u128,
    n: nat,
)
    requires
        n <= book.lines.len(),
        book.lines.len() <= after.lines.len(),
        forall|i: int| 0 <= i < book.lines.len() ==> after.lines[i] == book.lines[i],
        after.orders.len() == book.orders.len() + 1,
        forall|i: int| 0 <= i < book.orders.len() ==> after.orders[i] == book.orders[i],
        after.orders[book.orders.len() as int].id == id,
        forall|i: int| 0 <= i < book.lines.len() ==> (#[trigger] book.lines[i]).order_id != id,
    ensures
        taken_back_to(after, original, line, n) == taken_back_to(book, original, line, n),
    decreases n,
{
    if n > 0 {
        lemma_old_lines_kept(book, after, original, line, id, (n - 1) as nat);
        let l = book.lines[n - 1];
        let p = |o: OrderFacts| o.id == l.order_id && refunds(o, original);
        if any(book.orders, p) {
            let i = choose|i: int| 0 <= i < book.orders.len() && p(#[trigger] book.orders[i]);
            assert(p(after.orders[i]));
        }
        if any(after.orders, p) {
            let i = choose|i: int| 0 <= i < after.orders.len() && p(#[trigger] after.orders[i]);
            assert(i < book.orders.len());
            assert(p(book.orders[i]));
        }
        assert(after.lines[n - 1] == l);
        assert(takes_back(after.orders, l, original, line) == takes_back(
            book.orders,
            l,
            original,
            line,
        ));
    }
}

/// The lines of a new refund take back what they were asked to.
proof fn lemma_new_lines_counted(
    book: Book,
    items: Seq<Item>,
    new: NewRefund,
    back: Returned,
    after: Book,
    line: LineFacts,
    id: u128,
    line_ids: Seq<u128>,
    n: nat,
)
    requires
        n <= new.lines@.len(),
        refund_lines_refusal(book, items, new, new.lines@.len()) is None,
        original_line(book, new.original_id, line.id) == Some(line),
        back.lines.len() == new.lines@.len(),
        forall|i: int|
            0 <= i < back.lines.len() ==> Some(#[trigger] back.lines[i]) == refund_line(
                book,
                items,
                new.original_id,
                new.lines@[i],
            ),
        after.lines == book.lines + Seq::new(
            back.lines.len(),
            |i: int| line_of(back.lines[i], id, line_ids[i], (i + 1) as nat),
        ),
        after.orders.len() == book.orders.len() + 1,
        after.orders[book.orders.len() as int].id == id,
        refunds(after.orders[book.orders.len() as int], new.original_id),
        taken_back_to(after, new.original_id, line.id, book.lines.len()) == taken_back(
            book,
            new.original_id,
            line.id,
        ),
    ensures
        taken_back_to(after, new.original_id, line.id, (book.lines.len() + n) as nat)
            == taken_back(book, new.original_id, line.id) + asked_to(new.lines@, line.id, n),
    decreases n,
{
    let prior = taken_back(book, new.original_id, line.id);
    if n == 0 {
        assert(prior + asked_to(new.lines@, line.id, 0) =~= prior);
    } else {
        lemma_new_lines_counted(
            book,
            items,
            new,
            back,
            after,
            line,
            id,
            line_ids,
            (n - 1) as nat,
        );
        lemma_lines_passed(book, items, new, n, new.lines@.len());
        let asked = new.lines@[n - 1];
        let l = after.lines[book.lines.len() + n - 1];
        assert(l == line_of(back.lines[n - 1], id, line_ids[n - 1], n));
        lemma_first_from(book.lines, line_within(new.original_id, asked.line_id), 0);
        let ol = original_line(book, new.original_id, asked.line_id)->0;
        assert(ol.id == asked.line_id);
        assert(l.refund_of_line_id == Some(asked.line_id));
        let p = |o: OrderFacts| o.id == l.order_id && refunds(o, new.original_id);
        assert(p(after.orders[book.orders.len() as int]));
        assert(any(after.orders, p));
        assert(takes_back(after.orders, l, new.original_id, line.id) == (asked.line_id
            == line.id));
        let rest = asked_to(new.lines@, line.id, (n - 1) as nat);
        assert((prior + rest).push(asked.qty@) =~= prior + rest.push(asked.qty@));
    }
}

/// An order is voided only while it still can be: it is captured, its session is open, a
/// reason is given, and no refund that stands was made of it. Where all of that holds, a
/// void is never refused. Orders and sessions are known by their ids.
pub proof fn voids_come_before_refunds_and_the_close(
    book: Book,
    sessions: Seq<Session>,
    k: int,
    n: int,
    reason: Seq<char>,
)
    requires
        0 <= k < book.orders.len(),
        forall|j: int|
            0 <= j < book.orders.len() && j != k ==> (#[trigger] book.orders[j]).id
                != book.orders[k].id,
        0 <= n < sessions.len(),
        sessions[n].id == book.orders[k].session_id,
        forall|j: int|
            0 <= j < sessions.len() && j != n ==> (#[trigger] sessions[j]).id != sessions[n].id,
    ensures
        void_refusal(book, sessions, book.orders[k].id, reason) is None <==> {
            &&& !is_blank(reason)
            &&& book.orders[k].status == OrderStatus::Captured
            &&& sessions[n].status == SessionStatus::Open
            &&& forall|j: int|
                0 <= j < book.orders.len() ==> !((#[trigger] book.orders[j]).refund_of_id == Some(
                    book.orders[k].id,
                ) && book.orders[j].status == OrderStatus::Captured)
        },
{
    let id = book.orders[k].id;
    lemma_first_from(book.orders, order_id(id), 0);
    assert(order_id(id)(book.orders[k]));
    lemma_first_from(sessions, session_id(sessions[n].id), 0);
    assert(session_id(sessions[n].id)(sessions[n]));
    let p = |other: OrderFacts| refunds(other, id);
    if any(book.orders, p) {
        let j = choose|j: int| 0 <= j < book.orders.len() && p(#[trigger] book.orders[j]);
        assert(refunds(book.orders[j], id));
    } else {
        assert forall|j: int| 0 <= j < book.orders.len() implies !((
        #[trigger] book.orders[j]).refund_of_id == Some(id) && book.orders[j].status
            == OrderStatus::Captured) by {
            assert(!p(book.orders[j]));
        }
    }
}

} // verus!
