//! Capturing a sale: one small step that checks, prices and writes an order.
//!
//! Neither stock nor the ledger moves here; closing the session takes care of
//! both. A sale that was captured already is found again, not sold twice.

use super::pricing::{buyer, list_price, resolve_customer, Customer, Quote};
use super::register::{find_register, register_id, Model as Register};
use super::sale::{
    all_paid, all_priced, all_taxed_to, check_discount, check_lot, check_qty, check_sellable,
    compute_totals, discount_refusal, gross_of, line_price, lot_refusal, order_of, price_line,
    sellable_refusal, sold_qty_refusal, taxed, tendered_to, tenders_refusal, totals_of,
    validate_tenders, written, Book, Naming, NewSale, Order, OrderFacts, OrderKind, Paid, Priced,
    PricedLine, Rate, SaleLineInput, SaleService, Shop, Stub, Sums, TenderInput, Ticket,
};
use super::session::{check_open, not_open_refusal, session_id, Session, SessionStatus};
use crate::clock::{date_of, day_of};
use crate::decimal::{minus, multiplies, opt, pow10, times, worth, zero, Decimal, Num};
use crate::error::{in_range, refusal, Error, Refusal};
use crate::scm::inventory::item::item_id;
use crate::scm::inventory::stock::money;
use crate::search::{any, find_viewed, first_from, first_where, lemma_first_from};
use crate::sums::{
    adds_exactly, lemma_pow10_positive, lemma_rounded_multiple, lemma_rounded_sign, lemma_sum_exact,
    lemma_worth_sign, total, total_to, worth_of, worth_to,
};
use crate::scm::gl::{lemma_multiples_add, lemma_two_places_are_cents};
use vstd::prelude::*;

verus! {

pub open spec fn replayed(client_uuid: u128) -> spec_fn(OrderFacts) -> bool {
    |o: OrderFacts| o.client_uuid == client_uuid
}

/// A percentage of zero is no discount.
pub open spec fn real_discount(pct: Option<Num>) -> Option<Num> {
    match pct {
        Some(p) if p.0 != 0 => Some(p),
        _ => None,
    }
}

/// A line of a sale, checked and priced; `n` is its number.
pub open spec fn sold_line(
    shop: Shop,
    own: Option<u128>,
    currency: Seq<char>,
    new: NewSale,
    line: SaleLineInput,
    quote: Quote,
    n: int,
) -> Result<Priced, Refusal> {
    let item = first_where(shop.items@, item_id(line.item_id))->0;
    if let Some(r) = sellable_refusal(shop.items@, line.item_id, n) {
        Err(r)
    } else if let Some(r) = sold_qty_refusal(shop.uoms@, item, line.qty@, n) {
        Err(r)
    } else if let Some(r) = lot_refusal(shop.batches@, item, line.batch_id, n) {
        Err(r)
    } else if let Some(r) = discount_refusal(line.discount_pct, new.allow_override, n) {
        Err(r)
    } else if day_of(new.sold_at as int) is None {
        Err(Refusal::Overflow)
    } else {
        match line_price(
            line,
            list_price(
                shop.lists@,
                shop.entries@,
                own,
                item,
                line.qty@,
                currency,
                day_of(new.sold_at as int)->0,
            ),
            quote,
            new.captured_offline,
            item.sku@,
            n,
        ) {
            Err(r) => Err(r),
            Ok(p) => Ok(
                Priced {
                    item_id: item.id,
                    description: item.name@,
                    sales_tax_code_id: item.sales_tax_code_id,
                    qty: line.qty@,
                    unit_price: p.unit,
                    price_source: Some(p.source),
                    discount_pct: real_discount(opt(line.discount_pct)),
                    batch_id: line.batch_id,
                    drift: p.drift,
                    refund_of_line_id: None,
                    tax_code_id: None,
                    gross: zero(),
                    tax: zero(),
                },
            ),
        }
    }
}

/// The first `n` lines of a sale, or the first refusal among them.
pub open spec fn sold_lines_to(
    shop: Shop,
    own: Option<u128>,
    currency: Seq<char>,
    new: NewSale,
    quotes: Seq<Quote>,
    n: nat,
) -> Result<Seq<Priced>, Refusal>
    decreases n,
{
    if n == 0 {
        Ok(Seq::empty())
    } else {
        match sold_lines_to(shop, own, currency, new, quotes, (n - 1) as nat) {
            Err(r) => Err(r),
            Ok(rest) => match sold_line(
                shop,
                own,
                currency,
                new,
                new.lines@[n - 1],
                quotes[n - 1],
                n as int,
            ) {
                Err(r) => Err(r),
                Ok(l) => Ok(rest.push(l)),
            },
        }
    }
}

/// What a sale comes to.
pub struct Sold {
    pub buyer: Customer,
    pub lines: Seq<Priced>,
    pub sums: Sums,
}

/// Why a sale is malformed, where it is.
pub open spec fn form_refusal(new: NewSale) -> Option<Refusal> {
    if new.lines@.len() == 0 {
        Some(Refusal::Validation("a sale needs at least one line"@))
    } else if new.tenders@.len() == 0 {
        Some(Refusal::Validation("a sale needs at least one tender"@))
    } else if (new.capture_seconds matches Some(s) && s < 0) || (new.input_count matches Some(c)
        && c < 0) {
        Some(Refusal::Validation("instrumentation counters must not be negative"@))
    } else {
        None
    }
}

/// The register of a session that may sell.
pub open spec fn selling_register(
    sessions: Seq<Session>,
    registers: Seq<Register>,
    session: u128,
    closed: Seq<char>,
) -> Result<Register, Refusal> {
    match not_open_refusal(sessions, session, closed) {
        Some(r) => Err(r),
        None => match first_where(
            registers,
            register_id((first_where(sessions, session_id(session))->0).register_id),
        ) {
            None => Err(Refusal::Internal("session without a register"@)),
            Some(r) => Ok(r),
        },
    }
}

/// The buyer that a sale asks for: the one it names, else the register's own.
pub open spec fn wanted(new: NewSale, register: Register) -> Option<u128> {
    match new.customer_id {
        Some(id) => Some(id),
        None => register.default_customer_id,
    }
}

/// What a sale comes to, or why it is refused: the session must be open, the
/// buyer known, every line sellable at the server's price, and the tenders must
/// come to the total.
pub open spec fn sold(
    shop: Shop,
    sessions: Seq<Session>,
    registers: Seq<Register>,
    new: NewSale,
    quotes: Seq<Quote>,
) -> Result<Sold, Refusal> {
    match selling_register(
        sessions,
        registers,
        new.session_id,
        "the session is not open; open a session before selling"@,
    ) {
        Err(r) => Err(r),
        Ok(register) => match buyer(
            shop.customers@,
            shop.walk_in_code@,
            wanted(new, register),
        ) {
            Err(r) => Err(r),
            Ok(customer) => if let Some(r) = form_refusal(new) {
                Err(r)
            } else {
                match sold_lines_to(
                    shop,
                    register.price_list_id,
                    customer.currency@,
                    new,
                    quotes,
                    new.lines@.len(),
                ) {
                    Err(r) => Err(r),
                    Ok(priced) => match all_taxed_to(
                        priced,
                        shop.rates@,
                        customer.tax_exempt,
                        priced.len(),
                    ) {
                        None => Err(Refusal::Overflow),
                        Some(lines) => match totals_of(lines) {
                            None => Err(Refusal::Overflow),
                            Some(sums) => match tenders_refusal(
                                new.tenders@,
                                sums.total,
                                shop.require_mpesa_reference,
                            ) {
                                Some(r) => Err(r),
                                None => Ok(Sold { buyer: customer, lines, sums }),
                            },
                        },
                    },
                }
            },
        },
    }
}

/// Whether any line kept a price that had drifted from the server's.
pub open spec fn drifted(lines: Seq<Priced>) -> bool {
    any(lines, |l: Priced| l.drift)
}

/// The ticket of a sale.
pub open spec fn sale_stub(new: NewSale, s: Sold) -> Stub {
    Stub {
        client_uuid: new.client_uuid,
        session_id: new.session_id,
        kind: OrderKind::Sale,
        customer_id: s.buyer.id,
        sold_at: new.sold_at,
        currency: s.buyer.currency@,
        sums: s.sums,
        refund_of_id: None,
        captured_offline: new.captured_offline,
        price_drift: drifted(s.lines),
        capture_seconds: new.capture_seconds,
        input_count: new.input_count,
        created_by: new.created_by,
    }
}

proof fn lemma_sold_stops(
    shop: Shop,
    own: Option<u128>,
    currency: Seq<char>,
    new: NewSale,
    quotes: Seq<Quote>,
    i: nat,
    n: nat,
)
    requires
        i <= n,
        sold_lines_to(shop, own, currency, new, quotes, i) is Err,
    ensures
        sold_lines_to(shop, own, currency, new, quotes, n) == sold_lines_to(
            shop,
            own,
            currency,
            new,
            quotes,
            i,
        ),
    decreases n,
{
    if i < n {
        lemma_sold_stops(shop, own, currency, new, quotes, i, (n - 1) as nat);
    }
}

proof fn lemma_sold_len(
    shop: Shop,
    own: Option<u128>,
    currency: Seq<char>,
    new: NewSale,
    quotes: Seq<Quote>,
    n: nat,
)
    ensures
        sold_lines_to(shop, own, currency, new, quotes, n) matches Ok(lines) ==> lines.len() == n,
    decreases n,
{
    if n > 0 {
        lemma_sold_len(shop, own, currency, new, quotes, (n - 1) as nat);
    }
}

fn sell_line(
    shop: &Shop,
    own: Option<u128>,
    currency: &str,
    new: &NewSale,
    line: &SaleLineInput,
    quote: &Quote,
    n: usize,
) -> (r: Result<PricedLine, Error>)
    ensures
        match sold_line(*shop, own, currency@, *new, *line, *quote, n as int) {
            Ok(l) => r is Ok && r->Ok_0@ == l,
            Err(why) => refusal(r) == Some(why),
        },
{
    let i = check_sellable(&shop.items, line.item_id, n)?;
    let item = &shop.items[i];
    check_qty(&shop.uoms, item, line.qty, n)?;
    check_lot(&shop.batches, item, line.batch_id, n)?;
    check_discount(line.discount_pct, new.allow_override, n)?;
    let sold_on = in_range(date_of(new.sold_at))?;
    let (unit_price, source, drift) = price_line(
        shop,
        own,
        item,
        line,
        quote,
        currency,
        sold_on,
        new.captured_offline,
        n,
    )?;
    let discount_pct = match line.discount_pct {
        Some(p) => if p.is_zero() {
            None
        } else {
            Some(p)
        },
        None => None,
    };
    Ok(
        PricedLine {
            item_id: item.id,
            description: item.name.clone(),
            sales_tax_code_id: item.sales_tax_code_id,
            qty: line.qty,
            unit_price,
            price_source: Some(source),
            discount_pct,
            batch_id: line.batch_id,
            drift,
            refund_of_line_id: None,
            tax_code_id: None,
            computed_gross: Decimal::zero(),
            computed_tax: Decimal::zero(),
        },
    )
}

fn sell_lines(
    shop: &Shop,
    own: Option<u128>,
    currency: &str,
    new: &NewSale,
    quotes: &Vec<Quote>,
) -> (r: Result<Vec<PricedLine>, Error>)
    requires
        quotes@.len() == new.lines@.len(),
    ensures
        match sold_lines_to(*shop, own, currency@, *new, quotes@, new.lines@.len()) {
            Ok(lines) => r is Ok && all_priced(r->Ok_0@) == lines,
            Err(why) => refusal(r) == Some(why),
        },
{
    let mut out: Vec<PricedLine> = Vec::new();
    assert(all_priced(out@) =~= Seq::empty());
    let mut i: usize = 0;
    while i < new.lines.len()
        invariant
            i <= new.lines.len(),
            quotes@.len() == new.lines@.len(),
            sold_lines_to(*shop, own, currency@, *new, quotes@, i as nat) == Ok::<
                Seq<Priced>,
                Refusal,
            >(all_priced(out@)),
        decreases new.lines.len() - i,
    {
        proof {
            if sold_lines_to(*shop, own, currency@, *new, quotes@, (i + 1) as nat) is Err {
                lemma_sold_stops(
                    *shop,
                    own,
                    currency@,
                    *new,
                    quotes@,
                    (i + 1) as nat,
                    new.lines@.len(),
                );
            }
        }
        let line = sell_line(shop, own, currency, new, &new.lines[i], &quotes[i], i + 1)?;
        let ghost held = all_priced(out@);
        out.push(line);
        assert(all_priced(out@) =~= held.push(line@));
        i = i + 1;
    }
    Ok(out)
}

/// The register of an open session; `closed` is what is said of another one.
pub(crate) fn find_selling_register<'a>(
    sessions: &Vec<Session>,
    registers: &'a Vec<Register>,
    session: u128,
    closed: &str,
) -> (r: Result<&'a Register, Error>)
    ensures
        match selling_register(sessions@, registers@, session, closed@) {
            Ok(m) => r is Ok && *r->Ok_0 == m,
            Err(why) => refusal(r) == Some(why),
        },
{
    let i = check_open(sessions, session, closed)?;
    match find_register(registers, sessions[i].register_id) {
        Some(k) => Ok(&registers[k]),
        None => Err(Error::Internal("session without a register".to_owned())),
    }
}

fn check_form(new: &NewSale) -> (r: Result<(), Error>)
    ensures
        refusal(r) == form_refusal(*new),
{
    if new.lines.len() == 0 {
        return Err(Error::Validation("a sale needs at least one line".to_owned()));
    }
    if new.tenders.len() == 0 {
        return Err(Error::Validation("a sale needs at least one tender".to_owned()));
    }
    let late = match new.capture_seconds {
        Some(s) => s < 0,
        None => false,
    };
    let odd = match new.input_count {
        Some(c) => c < 0,
        None => false,
    };
    if late || odd {
        return Err(
            Error::Validation("instrumentation counters must not be negative".to_owned()),
        );
    }
    Ok(())
}

fn any_drift(lines: &Vec<PricedLine>) -> (r: bool)
    ensures
        r == drifted(all_priced(lines@)),
{
    let ghost all = all_priced(lines@);
    let mut i: usize = 0;
    while i < lines.len()
        invariant
            i <= lines.len(),
            all == all_priced(lines@),
            forall|j: int| 0 <= j < i ==> !(#[trigger] all[j]).drift,
        decreases lines.len() - i,
    {
        if lines[i].drift {
            assert(all[i as int].drift);
            return true;
        }
        i = i + 1;
    }
    false
}

/// The place of the order that a till calls by that name.
pub(crate) fn find_replay(orders: &Vec<Order>, client_uuid: u128) -> (r: Option<usize>)
    ensures
        ({
            let all = orders@.map_values(|o: Order| o@);
            match r {
                Some(i) => i < orders@.len() && first_where(all, replayed(client_uuid)) == Some(
                    orders@[i as int]@,
                ),
                None => first_where(all, replayed(client_uuid)) is None,
            }
        }),
{
    find_viewed(orders, Ghost(replayed(client_uuid)), |x: &Order| -> (b: bool)
        ensures
            b == replayed(client_uuid)(x@),
        { x.client_uuid == client_uuid })
}

impl SaleService {
    /// Capture one sale: check the session and the items, price every line
    /// again, check that the tenders pay the total, and write the order. The
    /// result is the order's id. A replay of a sale that was captured before
    /// finds the order already written. A refused sale writes nothing.
    ///
    /// `quotes` holds, for each line, what the pricing rules say of it.
    pub fn capture(
        &mut self,
        shop: &Shop,
        sessions: &Vec<Session>,
        registers: &Vec<Register>,
        new: NewSale,
        quotes: &Vec<Quote>,
        naming: Naming,
    ) -> (r: Result<u128, Error>)
        requires
            quotes@.len() == new.lines@.len(),
            naming.line_ids@.len() == new.lines@.len(),
        ensures
            match first_where(old(self)@.orders, replayed(new.client_uuid)) {
                Some(o) => r == Ok::<u128, Error>(o.id) && *final(self) == *old(self),
                None => match sold(*shop, sessions@, registers@, new, quotes@) {
                    Err(why) => refusal(r) == Some(why) && *final(self) == *old(self),
                    Ok(s) => r == Ok::<u128, Error>(naming.id) && final(self)@ == written(
                        old(self)@,
                        sale_stub(new, s),
                        s.lines,
                        all_paid(new.tenders@),
                        naming.id,
                        naming.number@,
                        naming.line_ids@,
                    ),
                },
            },
    {
        if let Some(i) = find_replay(&self.orders, new.client_uuid) {
            return Ok(self.orders[i].id);
        }
        let register = find_selling_register(
            sessions,
            registers,
            new.session_id,
            "the session is not open; open a session before selling",
        )?;
        let wanted = match new.customer_id {
            Some(id) => Some(id),
            None => register.default_customer_id,
        };
        let buyer = resolve_customer(&shop.customers, shop.walk_in_code.as_str(), wanted)?;
        check_form(&new)?;
        let priced = sell_lines(
            shop,
            register.price_list_id,
            buyer.currency.as_str(),
            &new,
            quotes,
        )?;
        proof {
            lemma_sold_len(
                *shop,
                register.price_list_id,
                buyer.currency@,
                new,
                quotes@,
                new.lines@.len(),
            );
        }
        let (lines, totals) = compute_totals(priced, &shop.rates, buyer.tax_exempt)?;
        validate_tenders(&new.tenders, totals.total, shop.require_mpesa_reference)?;
        let price_drift = any_drift(&lines);
        let id = naming.id;
        let ticket = Ticket {
            client_uuid: new.client_uuid,
            session_id: new.session_id,
            kind: OrderKind::Sale,
            customer_id: buyer.id,
            sold_at: new.sold_at,
            currency: buyer.currency.clone(),
            totals,
            refund_of_id: None,
            captured_offline: new.captured_offline,
            price_drift,
            capture_seconds: new.capture_seconds,
            input_count: new.input_count,
            created_by: new.created_by,
        };
        self.insert_order(ticket, &lines, &new.tenders, naming);
        Ok(id)
    }
}

// ---------------------------------------------------------------------------
// The offline queue
// ---------------------------------------------------------------------------

/// A sale out of the offline queue, with what its lines are quoted at and what
/// its row gets.
#[derive(Debug)]
pub struct Queued {
    pub sale: NewSale,
    pub quotes: Vec<Quote>,
    pub naming: Naming,
}

/// What became of a queued sale.
#[derive(Debug)]
pub struct SyncSaleResult {
    pub client_uuid: u128,
    /// The order, new or already captured, or why there is none.
    pub order: Result<u128, Error>,
}

/// Whatever the till says, a sale out of the queue was captured offline.
pub open spec fn offline(sale: NewSale) -> NewSale {
    NewSale { captured_offline: true, ..sale }
}

/// The book after a capture, and what the capture answered.
#[verifier::opaque]
pub open spec fn captured(
    book: Book,
    shop: Shop,
    sessions: Seq<Session>,
    registers: Seq<Register>,
    new: NewSale,
    quotes: Seq<Quote>,
    naming: Naming,
) -> (Book, Result<u128, Refusal>) {
    match first_where(book.orders, replayed(new.client_uuid)) {
        Some(o) => (book, Ok(o.id)),
        None => match sold(shop, sessions, registers, new, quotes) {
            Err(why) => (book, Err(why)),
            Ok(s) => (
                written(
                    book,
                    sale_stub(new, s),
                    s.lines,
                    all_paid(new.tenders@),
                    naming.id,
                    naming.number@,
                    naming.line_ids@,
                ),
                Ok(naming.id),
            ),
        },
    }
}

/// The book after the first `n` sales of a queue. Each is captured by itself,
/// so that one bad ticket never blocks the rest.
pub open spec fn synced_to(
    book: Book,
    shop: Shop,
    sessions: Seq<Session>,
    registers: Seq<Register>,
    queue: Seq<Queued>,
    n: nat,
) -> Book
    decreases n,
{
    if n == 0 {
        book
    } else {
        let q = queue[n - 1];
        captured(
            synced_to(book, shop, sessions, registers, queue, (n - 1) as nat),
            shop,
            sessions,
            registers,
            offline(q.sale),
            q.quotes@,
            q.naming,
        ).0
    }
}

/// What the sale at place `i` of a queue is answered.
pub open spec fn sync_answer(
    book: Book,
    shop: Shop,
    sessions: Seq<Session>,
    registers: Seq<Register>,
    queue: Seq<Queued>,
    i: int,
) -> Result<u128, Refusal> {
    captured(
        synced_to(book, shop, sessions, registers, queue, i as nat),
        shop,
        sessions,
        registers,
        offline(queue[i].sale),
        queue[i].quotes@,
        queue[i].naming,
    ).1
}

/// Whether a queued sale's answer says so.
pub open spec fn says(r: SyncSaleResult, sale: NewSale, answer: Result<u128, Refusal>) -> bool {
    &&& r.client_uuid == sale.client_uuid
    &&& match answer {
        Ok(id) => r.order == Ok::<u128, Error>(id),
        Err(why) => refusal(r.order) == Some(why),
    }
}

impl SaleService {
    /// Replay the offline queue, oldest first.
    pub fn sync(
        &mut self,
        shop: &Shop,
        sessions: &Vec<Session>,
        registers: &Vec<Register>,
        queue: Vec<Queued>,
    ) -> (r: Vec<SyncSaleResult>)
        requires
            forall|i: int|
                0 <= i < queue@.len() ==> (#[trigger] queue@[i]).quotes@.len()
                    == queue@[i].sale.lines@.len() && queue@[i].naming.line_ids@.len()
                    == queue@[i].sale.lines@.len(),
        ensures
            final(self)@ == synced_to(
                old(self)@,
                *shop,
                sessions@,
                registers@,
                queue@,
                queue@.len(),
            ),
            r@.len() == queue@.len(),
            forall|i: int|
                0 <= i < queue@.len() ==> says(
                    #[trigger] r@[i],
                    queue@[i].sale,
                    sync_answer(old(self)@, *shop, sessions@, registers@, queue@, i),
                ),
    {
        let ghost all = queue@;
        let ghost before = self@;
        let mut rest = queue;
        let mut out: Vec<SyncSaleResult> = Vec::new();
        while rest.len() > 0
            invariant
                out@.len() + rest@.len() == all.len(),
                rest@ == all.skip(out@.len() as int),
                before == old(self)@,
                self@ == synced_to(
                    before,
                    *shop,
                    sessions@,
                    registers@,
                    all,
                    out@.len(),
                ),
                forall|i: int|
                    0 <= i < all.len() ==> (#[trigger] all[i]).quotes@.len()
                        == all[i].sale.lines@.len() && all[i].naming.line_ids@.len()
                        == all[i].sale.lines@.len(),
                forall|i: int|
                    0 <= i < out@.len() ==> says(
                        #[trigger] out@[i],
                        all[i].sale,
                        sync_answer(before, *shop, sessions@, registers@, all, i),
                    ),
            decreases rest.len(),
        {
            let ghost i = out@.len() as int;
            let ghost held = self@;
            let q = rest.remove(0);
            assert(q == all[i]);
            assert(rest@ =~= all.skip(i + 1));
            let client_uuid = q.sale.client_uuid;
            let mut sale = q.sale;
            sale.captured_offline = true;
            assert(sale == offline(all[i].sale));
            let order = self.capture(shop, sessions, registers, sale, &q.quotes, q.naming);
            let ghost answer = captured(
                held,
                *shop,
                sessions@,
                registers@,
                offline(all[i].sale),
                all[i].quotes@,
                all[i].naming,
            );
            proof {
                reveal(captured);
            }
            assert(self@ == answer.0);
            assert(answer.1 == sync_answer(before, *shop, sessions@, registers@, all, i));
            assert(self@ == synced_to(
                before,
                *shop,
                sessions@,
                registers@,
                all,
                (i + 1) as nat,
            ));
            out.push(SyncSaleResult { client_uuid, order });
        }
        out
    }
}

// ---------------------------------------------------------------------------
// Laws
// ---------------------------------------------------------------------------

/// Nothing sells outside an open session.
pub proof fn nothing_sells_outside_an_open_session(
    shop: Shop,
    sessions: Seq<Session>,
    registers: Seq<Register>,
    new: NewSale,
    quotes: Seq<Quote>,
)
    requires
        first_where(sessions, session_id(new.session_id)) matches Some(s) ==> s.status
            != SessionStatus::Open,
    ensures
        sold(shop, sessions, registers, new, quotes) is Err,
{
}

/// A sale that was captured is found again by the name the till gave it: a
/// replay can never sell twice.
pub proof fn replays_sell_once(
    book: Book,
    t: Stub,
    lines: Seq<Priced>,
    tenders: Seq<Paid>,
    id: u128,
    number: Seq<char>,
    line_ids: Seq<u128>,
)
    requires
        first_where(book.orders, replayed(t.client_uuid)) is None,
    ensures
        first_where(
            written(book, t, lines, tenders, id, number, line_ids).orders,
            replayed(t.client_uuid),
        ) == Some(order_of(t, id, number)),
{
    let p = replayed(t.client_uuid);
    let after = written(book, t, lines, tenders, id, number, line_ids).orders;
    lemma_first_from(book.orders, p, 0);
    lemma_first_from(after, p, 0);
    assert(p(after[book.orders.len() as int]));
    assert forall|j: int| 0 <= j < book.orders.len() implies !p(#[trigger] after[j]) by {
        assert(after[j] == book.orders[j]);
    }
}

proof fn lemma_refused_leaves(
    book: Book,
    shop: Shop,
    sessions: Seq<Session>,
    registers: Seq<Register>,
    q: Queued,
)
    ensures
        ({
            let after =
                captured(book, shop, sessions, registers, offline(q.sale), q.quotes@, q.naming);
            after.1 is Err ==> after.0 == book
        }),
{
    reveal(captured);
}

proof fn lemma_skipped(
    book: Book,
    shop: Shop,
    sessions: Seq<Session>,
    registers: Seq<Register>,
    queue: Seq<Queued>,
    i: int,
    n: nat,
)
    requires
        0 <= i < queue.len(),
        n <= queue.len(),
        sync_answer(book, shop, sessions, registers, queue, i) is Err,
    ensures
        synced_to(book, shop, sessions, registers, queue, n) == synced_to(
            book,
            shop,
            sessions,
            registers,
            queue.remove(i),
            if n <= i {
                n
            } else {
                (n - 1) as nat
            },
        ),
    decreases n,
{
    if n > 0 {
        lemma_skipped(book, shop, sessions, registers, queue, i, (n - 1) as nat);
        if n <= i {
            assert(queue.remove(i)[n - 1] == queue[n - 1]);
        } else if n - 1 > i {
            assert(queue.remove(i)[n - 2] == queue[n - 1]);
        } else {
            let held = synced_to(book, shop, sessions, registers, queue, i as nat);
            lemma_refused_leaves(held, shop, sessions, registers, queue[i]);
        }
    }
}

/// One bad ticket never blocks the rest: a queue in which a sale is refused is
/// synced as if that sale were not in it.
pub proof fn a_bad_ticket_blocks_no_other(
    book: Book,
    shop: Shop,
    sessions: Seq<Session>,
    registers: Seq<Register>,
    queue: Seq<Queued>,
    i: int,
)
    requires
        0 <= i < queue.len(),
        sync_answer(book, shop, sessions, registers, queue, i) is Err,
    ensures
        synced_to(book, shop, sessions, registers, queue, queue.len()) == synced_to(
            book,
            shop,
            sessions,
            registers,
            queue.remove(i),
            (queue.len() - 1) as nat,
        ),
        forall|j: int|
            i < j < queue.len() ==> #[trigger] sync_answer(
                book,
                shop,
                sessions,
                registers,
                queue,
                j,
            ) == sync_answer(book, shop, sessions, registers, queue.remove(i), j - 1),
{
    lemma_skipped(book, shop, sessions, registers, queue, i, queue.len());
    assert forall|j: int| i < j < queue.len() implies #[trigger] sync_answer(
        book,
        shop,
        sessions,
        registers,
        queue,
        j,
    ) == sync_answer(book, shop, sessions, registers, queue.remove(i), j - 1) by {
        lemma_skipped(book, shop, sessions, registers, queue, i, j as nat);
        assert(queue.remove(i)[j - 1] == queue[j]);
    }
}

proof fn lemma_still_found(
    book: Book,
    shop: Shop,
    sessions: Seq<Session>,
    registers: Seq<Register>,
    q: Queued,
    uuid: u128,
)
    requires
        first_where(book.orders, replayed(uuid)) is Some,
    ensures
        first_where(
            captured(book, shop, sessions, registers, offline(q.sale), q.quotes@, q.naming).0.orders,
            replayed(uuid),
        ) is Some,
{
    reveal(captured);
    let after = captured(book, shop, sessions, registers, offline(q.sale), q.quotes@, q.naming).0;
    let p = replayed(uuid);
    lemma_first_from(book.orders, p, 0);
    lemma_first_from(after.orders, p, 0);
    let k = first_from(book.orders, p, 0)->0;
    assert(after.orders[k] == book.orders[k]);
    assert(p(after.orders[k]));
}

proof fn lemma_synced_found(
    book: Book,
    shop: Shop,
    sessions: Seq<Session>,
    registers: Seq<Register>,
    queue: Seq<Queued>,
    i: int,
    n: nat,
)
    requires
        0 <= i < n <= queue.len(),
        sold(shop, sessions, registers, offline(queue[i].sale), queue[i].quotes@) is Ok,
    ensures
        first_where(
            synced_to(book, shop, sessions, registers, queue, n).orders,
            replayed(queue[i].sale.client_uuid),
        ) is Some,
    decreases n,
{
    let before = synced_to(book, shop, sessions, registers, queue, (n - 1) as nat);
    let q = queue[n - 1];
    let uuid = queue[i].sale.client_uuid;
    if i == n - 1 {
        reveal(captured);
        if first_where(before.orders, replayed(uuid)) is None {
            let new = offline(q.sale);
            let s = sold(shop, sessions, registers, new, q.quotes@)->Ok_0;
            replays_sell_once(
                before,
                sale_stub(new, s),
                s.lines,
                all_paid(new.tenders@),
                q.naming.id,
                q.naming.number@,
                q.naming.line_ids@,
            );
        }
    } else {
        lemma_synced_found(book, shop, sessions, registers, queue, i, (n - 1) as nat);
        lemma_still_found(before, shop, sessions, registers, q, uuid);
    }
}

/// A sale that is refused or was captured before leaves the book as it is.
proof fn lemma_stays(
    book: Book,
    shop: Shop,
    sessions: Seq<Session>,
    registers: Seq<Register>,
    q: Queued,
)
    requires
        sold(shop, sessions, registers, offline(q.sale), q.quotes@) is Ok ==> first_where(
            book.orders,
            replayed(q.sale.client_uuid),
        ) is Some,
    ensures
        captured(book, shop, sessions, registers, offline(q.sale), q.quotes@, q.naming).0 == book,
{
    reveal(captured);
}

proof fn lemma_synced_stays(
    synced: Book,
    shop: Shop,
    sessions: Seq<Session>,
    registers: Seq<Register>,
    queue: Seq<Queued>,
    n: nat,
)
    requires
        n <= queue.len(),
        forall|i: int|
            0 <= i < queue.len() && sold(
                shop,
                sessions,
                registers,
                offline((#[trigger] queue[i]).sale),
                queue[i].quotes@,
            ) is Ok ==> first_where(synced.orders, replayed(queue[i].sale.client_uuid)) is Some,
    ensures
        synced_to(synced, shop, sessions, registers, queue, n) == synced,
    decreases n,
{
    if n > 0 {
        lemma_synced_stays(synced, shop, sessions, registers, queue, (n - 1) as nat);
        lemma_stays(synced, shop, sessions, registers, queue[n - 1]);
    }
}

/// A till that syncs its queue again, because it never heard the answer, sells
/// nothing a second time.
pub proof fn syncing_again_changes_nothing(
    book: Book,
    shop: Shop,
    sessions: Seq<Session>,
    registers: Seq<Register>,
    queue: Seq<Queued>,
)
    ensures
        ({
            let synced = synced_to(book, shop, sessions, registers, queue, queue.len());
            synced_to(synced, shop, sessions, registers, queue, queue.len()) == synced
        }),
{
    let synced = synced_to(book, shop, sessions, registers, queue, queue.len());
    assert forall|i: int|
        0 <= i < queue.len() && sold(
            shop,
            sessions,
            registers,
            offline((#[trigger] queue[i]).sale),
            queue[i].quotes@,
        ) is Ok implies first_where(synced.orders, replayed(queue[i].sale.client_uuid)) is Some by {
        lemma_synced_found(book, shop, sessions, registers, queue, i, queue.len());
    }
    lemma_synced_stays(synced, shop, sessions, registers, queue, queue.len());
}

/// Unless the cashier keyed it by hand, the customer pays the price that the
/// till showed, offline or not.
pub proof fn customers_pay_what_the_till_showed(
    line: SaleLineInput,
    own: Option<Option<(Num, u128)>>,
    quote: Quote,
    offline: bool,
    sku: Seq<char>,
    n: int,
)
    requires
        !line.manual_price,
        line_price(line, own, quote, offline, sku, n) is Ok,
    ensures
        worth((line_price(line, own, quote, offline, sku, n)->Ok_0).unit) == worth(
            line.unit_price@,
        ),
{
}

/// Only an offline sale can keep a price that has drifted.
pub proof fn drift_happens_offline(
    line: SaleLineInput,
    own: Option<Option<(Num, u128)>>,
    quote: Quote,
    sku: Seq<char>,
    n: int,
)
    ensures
        line_price(line, own, quote, false, sku, n) matches Ok(p) ==> !p.drift,
{
}

/// A line without a discount costs what its list price says, to the cent.
pub proof fn undiscounted_lines_cost_the_list_price(l: Priced)
    requires
        l.discount_pct is None,
        times(l.qty, l.unit_price) matches Some(full) && multiplies(full, (100int, 0nat)),
    ensures
        gross_of(l) is Some,
        worth(gross_of(l)->0) == worth(money(times(l.qty, l.unit_price)->0)),
{
    let full = times(l.qty, l.unit_price)->0;
    let hundred: Num = (100int, 0nat);
    assert(minus(hundred, zero()) == Some(hundred));
    if full.0 == 0 {
        lemma_worth_sign(zero());
        lemma_worth_sign(money(full));
        lemma_rounded_sign(full, 2);
    } else {
        assert(times(full, hundred) == Some((full.0 * 100, full.1)));
        assert((full.0 * 100) % 100 == 0 && (full.0 * 100) / 100 == full.0);
    }
}

/// What an exempt buyer pays holds no tax.
pub proof fn exempt_buyers_pay_no_tax(l: Priced, rates: Seq<Rate>)
    ensures
        taxed(l, rates, true) matches Some(t) ==> t.tax == zero() && t.tax_code_id is None,
{
}

/// The tenders of an accepted sale come to its total exactly, where they are
/// whole cents.
pub proof fn tenders_pay_the_total(tenders: Seq<TenderInput>, sums: Sums, mpesa_needs_code: bool)
    requires
        tenders_refusal(tenders, sums.total, mpesa_needs_code) is None,
        adds_exactly(amounts(tenders)),
        forall|i: int| 0 <= i < tenders.len() ==> (#[trigger] amounts(tenders)[i]).1 <= 2,
    ensures
        worth_of(amounts(tenders)) == worth(money(sums.total)),
        forall|i: int|
            0 <= i < tenders.len() ==> money(#[trigger] amounts(tenders)[i]) == amounts(tenders)[i],
{
    let s = amounts(tenders);
    lemma_tendered_is_total(tenders, mpesa_needs_code, tenders.len());
    lemma_sum_exact(s, s.len());
    lemma_cents_add_up(s, s.len());
    lemma_rounded_multiple(total(s)->0, 2);
}

/// What tenders are applied for.
pub open spec fn amounts(tenders: Seq<TenderInput>) -> Seq<Num> {
    tenders.map_values(|t: TenderInput| t.amount@)
}

proof fn lemma_tendered_is_total(tenders: Seq<TenderInput>, needs: bool, n: nat)
    requires
        n <= tenders.len(),
    ensures
        tendered_to(tenders, needs, n) matches Ok(sum) ==> total_to(amounts(tenders), n) == Some(
            sum,
        ),
    decreases n,
{
    if n > 0 {
        lemma_tendered_is_total(tenders, needs, (n - 1) as nat);
        assert(amounts(tenders)[n - 1] == tenders[n - 1].amount@);
    }
}

proof fn lemma_cents_add_up(s: Seq<Num>, n: nat)
    requires
        n <= s.len(),
        forall|i: int| 0 <= i < s.len() ==> (#[trigger] s[i]).1 <= 2,
    ensures
        worth_to(s, n) % pow10(26) == 0,
    decreases n,
{
    lemma_pow10_positive(26);
    if n > 0 {
        lemma_cents_add_up(s, (n - 1) as nat);
        lemma_two_places_are_cents(s[n - 1]);
        lemma_multiples_add(worth_to(s, (n - 1) as nat), worth(s[n - 1]), pow10(26));
    } else {
        vstd::arithmetic::div_mod::lemma_small_mod(0, pow10(26) as nat);
    }
}

} // verus!
