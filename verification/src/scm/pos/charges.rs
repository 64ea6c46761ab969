//! What an accepted sale charges: the price, the discount and the tax of each line,
//! and what they come to.

use super::checkout::{sale_stub, selling_register, sold, sold_line, sold_lines_to, Sold};
use super::pricing::{customer_code, customer_id, Quote, Source};
use super::refund::{refund_stub, refund_tender, returned};
use super::register::{register_id, Model as Register};
use super::sale::{
    all_paid, all_taxed_to, batch_id, line_price, rate_for, taxed, tender_refusal, tendered_to,
    tenders_refusal, totalled_to, totals_of, written, Book, NewRefund, NewSale, OrderKind,
    OrderStatus, Priced, Rate, SaleLineInput, Shop, TenderInput,
};
use super::session::{session_id, Session, SessionStatus};
use crate::decimal::{
    max_places, minus, over, plus, pow10, rounded, times, worth, zero, Decimal, Num,
};
use crate::error::Refusal;
use crate::scm::inventory::item::{item_id, Item};
use crate::search::lemma_first_from;
use crate::sums::{lemma_worth_sign, total, total_to};
use crate::text::{opt_text, unless_blank};
use vstd::prelude::*;

verus! {

/// Whether money is what is left of an amount after a percentage was taken off it, to
/// the cent.
pub open spec fn is_left_of(money: Num, amount: Num, pct: Num) -> bool {
    minus((100, 0), pct) matches Some(left) && (times(amount, left) matches Some(product) && (over(
        product,
        (100, 0),
    ) matches Some(q) && money == rounded(q, 2)))
}

/// Whether money is the tax inside an amount at a percentage, to the cent: the amount
/// is the net and that percentage of it.
pub open spec fn is_tax_inside(money: Num, amount: Num, rate: Num) -> bool {
    times(amount, rate) matches Some(product) && (plus((100, 0), rate) matches Some(whole) && (over(
        product,
        whole,
    ) matches Some(q) && money == rounded(q, 2)))
}

/// The lines of a sale before their money is filled in.
proof fn lemma_lines(
    shop: Shop,
    own: Option<u128>,
    currency: Seq<char>,
    new: NewSale,
    quotes: Seq<Quote>,
    n: nat,
)
    requires
        sold_lines_to(shop, own, currency, new, quotes, n) is Ok,
    ensures
        ({
            let lines = sold_lines_to(shop, own, currency, new, quotes, n)->Ok_0;
            &&& lines.len() == n
            &&& forall|i: int|
                0 <= i < n ==> Ok::<Priced, Refusal>(#[trigger] lines[i]) == sold_line(
                    shop,
                    own,
                    currency,
                    new,
                    new.lines@[i],
                    quotes[i],
                    i + 1,
                )
        }),
    decreases n,
{
    if n > 0 {
        lemma_lines(shop, own, currency, new, quotes, (n - 1) as nat);
    }
}

proof fn lemma_filled(lines: Seq<Priced>, rates: Seq<Rate>, exempt: bool, n: nat)
    requires
        all_taxed_to(lines, rates, exempt, n) is Some,
    ensures
        ({
            let filled = all_taxed_to(lines, rates, exempt, n)->0;
            &&& filled.len() == n
            &&& forall|i: int|
                0 <= i < n ==> Some(#[trigger] filled[i]) == taxed(lines[i], rates, exempt)
        }),
    decreases n,
{
    if n > 0 {
        lemma_filled(lines, rates, exempt, (n - 1) as nat);
    }
}

/// The line of an accepted sale, before and after its money is filled in.
spec fn is_line(
    l: Priced,
    shop: Shop,
    s: Sold,
    new: NewSale,
    quotes: Seq<Quote>,
    own: Option<u128>,
    i: int,
) -> bool {
    let bare = sold_line(shop, own, s.buyer.currency@, new, new.lines@[i], quotes[i], i + 1);
    bare is Ok && Some(l) == taxed(bare->Ok_0, shop.rates@, s.buyer.tax_exempt)
}

spec fn are_lines(shop: Shop, s: Sold, new: NewSale, quotes: Seq<Quote>, own: Option<u128>) -> bool {
    forall|i: int|
        0 <= i < s.lines.len() ==> #[trigger] is_line(s.lines[i], shop, s, new, quotes, own, i)
}

proof fn lemma_sold(
    shop: Shop,
    sessions: Seq<Session>,
    registers: Seq<Register>,
    new: NewSale,
    quotes: Seq<Quote>,
)
    requires
        sold(shop, sessions, registers, new, quotes) is Ok,
    ensures
        ({
            let s = sold(shop, sessions, registers, new, quotes)->Ok_0;
            &&& s.lines.len() == new.lines@.len()
            &&& totals_of(s.lines) == Some(s.sums)
            &&& tenders_refusal(new.tenders@, s.sums.total, shop.require_mpesa_reference) is None
            &&& exists|own: Option<u128>| #[trigger] are_lines(shop, s, new, quotes, own)
        }),
{
    let s = sold(shop, sessions, registers, new, quotes)->Ok_0;
    let register = selling_register(
        sessions,
        registers,
        new.session_id,
        "the session is not open; open a session before selling"@,
    )->Ok_0;
    let own = register.price_list_id;
    lemma_lines(shop, own, s.buyer.currency@, new, quotes, new.lines@.len());
    let bare = sold_lines_to(shop, own, s.buyer.currency@, new, quotes, new.lines@.len())->Ok_0;
    lemma_filled(bare, shop.rates@, s.buyer.tax_exempt, bare.len());
    assert forall|i: int| 0 <= i < s.lines.len() implies #[trigger] is_line(
        s.lines[i],
        shop,
        s,
        new,
        quotes,
        own,
        i,
    ) by {
        assert(Some(s.lines[i]) == taxed(bare[i], shop.rates@, s.buyer.tax_exempt));
        assert(Ok::<Priced, Refusal>(bare[i]) == sold_line(
            shop,
            own,
            s.buyer.currency@,
            new,
            new.lines@[i],
            quotes[i],
            i + 1,
        ));
    }
    assert(are_lines(shop, s, new, quotes, own));
}

/// What an accepted sale sells, and for how much: each line is an active item that is
/// for sale and needs no serial number, in a positive quantity, at the price that
/// the till showed unless the cashier keyed it; a discount is one that was allowed,
/// from nothing to all of the price; and the line comes to the quantity times the
/// price, less the discount, to the cent. Items are known by their ids.
pub proof fn sales_charge_what_was_rung_up(
    shop: Shop,
    sessions: Seq<Session>,
    registers: Seq<Register>,
    new: NewSale,
    quotes: Seq<Quote>,
    i: int,
    k: int,
)
    requires
        sold(shop, sessions, registers, new, quotes) is Ok,
        0 <= i < new.lines@.len(),
        0 <= k < shop.items@.len(),
        shop.items@[k].id == new.lines@[i].item_id,
        forall|j: int|
            0 <= j < shop.items@.len() && j != k ==> (#[trigger] shop.items@[j]).id
                != shop.items@[k].id,
    ensures
        ({
            let s = sold(shop, sessions, registers, new, quotes)->Ok_0;
            let l = s.lines[i];
            let rung = new.lines@[i];
            let item = shop.items@[k];
            let pct = match rung.discount_pct {
                Some(p) => p@,
                None => zero(),
            };
            &&& s.lines.len() == new.lines@.len()
            &&& item.is_active && item.is_sellable && !item.track_serials
            &&& l.item_id == item.id
            &&& l.qty == rung.qty@
            &&& rung.qty@.0 > 0
            &&& l.batch_id == rung.batch_id
            &&& l.refund_of_line_id is None
            &&& !rung.manual_price ==> worth(l.unit_price) == worth(rung.unit_price@)
            &&& rung.manual_price ==> (quotes[i] matches Quote::Priced { price, .. }
                && l.unit_price == price@)
            &&& pct.0 != 0 ==> new.allow_override && l.discount_pct == Some(pct)
            &&& pct.0 == 0 ==> l.discount_pct is None
            &&& 0 <= pct.0
            &&& worth(pct) <= worth((100, 0))
            &&& !new.captured_offline ==> !l.drift
            &&& times(rung.qty@, l.unit_price) matches Some(full) && is_left_of(
                l.gross,
                full,
                if pct.0 == 0 {
                    zero()
                } else {
                    pct
                },
            )
        }),
{
    lemma_sold(shop, sessions, registers, new, quotes);
    let s = sold(shop, sessions, registers, new, quotes)->Ok_0;
    let own = choose|own: Option<u128>| #[trigger] are_lines(shop, s, new, quotes, own);
    assert(is_line(s.lines[i], shop, s, new, quotes, own, i));
    lemma_first_from(shop.items@, item_id(new.lines@[i].item_id), 0);
    lemma_worth_sign(zero());
    if let Some(p) = new.lines@[i].discount_pct {
        lemma_hundred(p@);
    } else {
        lemma_hundred(zero());
    }
}

proof fn lemma_hundred(n: Num)
    ensures
        n.0 == 0 ==> worth(n) <= worth((100, 0)),
{
    lemma_worth_sign((100, 0));
    if n.0 == 0 {
        assert(worth(n) == 0) by (nonlinear_arith)
            requires
                n.0 == 0,
                worth(n) == n.0 * pow10((max_places() - n.1) as nat),
        ;
    }
}

/// An accepted sale takes an item that tracks lots from an active lot of its own, and
/// another item from none.
pub proof fn sales_name_the_lot(
    shop: Shop,
    sessions: Seq<Session>,
    registers: Seq<Register>,
    new: NewSale,
    quotes: Seq<Quote>,
    i: int,
    k: int,
)
    requires
        sold(shop, sessions, registers, new, quotes) is Ok,
        0 <= i < new.lines@.len(),
        0 <= k < shop.items@.len(),
        shop.items@[k].id == new.lines@[i].item_id,
        forall|j: int|
            0 <= j < shop.items@.len() && j != k ==> (#[trigger] shop.items@[j]).id
                != shop.items@[k].id,
    ensures
        shop.items@[k].track_batches <==> new.lines@[i].batch_id is Some,
        new.lines@[i].batch_id matches Some(lot) ==> exists|b: int|
            0 <= b < shop.batches@.len() && (#[trigger] shop.batches@[b]).id == lot
                && shop.batches@[b].item_id == shop.items@[k].id && shop.batches@[b].is_active,
{
    lemma_sold(shop, sessions, registers, new, quotes);
    let s = sold(shop, sessions, registers, new, quotes)->Ok_0;
    let own = choose|own: Option<u128>| #[trigger] are_lines(shop, s, new, quotes, own);
    assert(is_line(s.lines[i], shop, s, new, quotes, own, i));
    lemma_first_from(shop.items@, item_id(new.lines@[i].item_id), 0);
    if let Some(lot) = new.lines@[i].batch_id {
        lemma_first_from(shop.batches@, batch_id(lot), 0);
    }
}

/// The tax of a sale is inside its prices, never on top of them: at the rate of the
/// item's code, a line holds that percentage of what is left of it without the tax;
/// an exempt buyer, or an item without a code or a rate, pays none. Items and codes
/// are known by their ids.
pub proof fn tax_is_inside_the_price(
    shop: Shop,
    sessions: Seq<Session>,
    registers: Seq<Register>,
    new: NewSale,
    quotes: Seq<Quote>,
    i: int,
    k: int,
)
    requires
        sold(shop, sessions, registers, new, quotes) is Ok,
        0 <= i < new.lines@.len(),
        0 <= k < shop.items@.len(),
        shop.items@[k].id == new.lines@[i].item_id,
        forall|j: int|
            0 <= j < shop.items@.len() && j != k ==> (#[trigger] shop.items@[j]).id
                != shop.items@[k].id,
    ensures
        ({
            let s = sold(shop, sessions, registers, new, quotes)->Ok_0;
            let l = s.lines[i];
            let code = shop.items@[k].sales_tax_code_id;
            let rates = shop.rates@;
            &&& s.buyer.tax_exempt ==> l.tax == zero() && l.tax_code_id is None
            &&& !s.buyer.tax_exempt ==> l.tax_code_id == code
            &&& code is None ==> l.tax == zero()
            &&& forall|j: int|
                !s.buyer.tax_exempt && 0 <= j < rates.len() && Some(
                    (#[trigger] rates[j]).tax_code_id,
                ) == code && (forall|o: int|
                    0 <= o < rates.len() && o != j ==> (#[trigger] rates[o]).tax_code_id
                        != rates[j].tax_code_id) ==> is_tax_inside(l.tax, l.gross, rates[j].rate@)
            &&& (forall|j: int|
                0 <= j < rates.len() ==> Some((#[trigger] rates[j]).tax_code_id) != code)
                ==> l.tax == zero()
        }),
{
    lemma_sold(shop, sessions, registers, new, quotes);
    let s = sold(shop, sessions, registers, new, quotes)->Ok_0;
    let own = choose|own: Option<u128>| #[trigger] are_lines(shop, s, new, quotes, own);
    assert(is_line(s.lines[i], shop, s, new, quotes, own, i));
    lemma_first_from(shop.items@, item_id(new.lines@[i].item_id), 0);
    if let Some(code) = shop.items@[k].sales_tax_code_id {
        lemma_first_from(shop.rates@, rate_for(code), 0);
    }
}

pub open spec fn grosses(lines: Seq<Priced>) -> Seq<Num> {
    lines.map_values(|l: Priced| l.gross)
}

pub open spec fn taxes(lines: Seq<Priced>) -> Seq<Num> {
    lines.map_values(|l: Priced| l.tax)
}

/// What lines would come to without discounts, each to the cent.
pub open spec fn full_prices(lines: Seq<Priced>) -> Seq<Num> {
    lines.map_values(|l: Priced| rounded(times(l.qty, l.unit_price)->0, 2))
}

proof fn lemma_totalled(lines: Seq<Priced>, n: nat)
    requires
        n <= lines.len(),
        totalled_to(lines, n) is Some,
    ensures
        ({
            let t = totalled_to(lines, n)->0;
            &&& total_to(grosses(lines), n) == Some(t.total)
            &&& total_to(taxes(lines), n) == Some(t.tax)
            &&& total_to(full_prices(lines), n) == Some(t.subtotal)
        }),
    decreases n,
{
    if n > 0 {
        lemma_totalled(lines, (n - 1) as nat);
    }
}

/// An order comes to its lines: its total is the sum of what the lines come to, its tax
/// the sum of theirs, its subtotal what they would come to without discounts, and
/// its discount what the total falls short of that. It is captured in its session
/// under the till's own name for it, and each tender is stored for its amount, to
/// the cent.
pub proof fn orders_come_to_their_lines(
    shop: Shop,
    sessions: Seq<Session>,
    registers: Seq<Register>,
    new: NewSale,
    quotes: Seq<Quote>,
    book: Book,
    id: u128,
    number: Seq<char>,
    line_ids: Seq<u128>,
)
    requires
        sold(shop, sessions, registers, new, quotes) is Ok,
    ensures
        ({
            let s = sold(shop, sessions, registers, new, quotes)->Ok_0;
            let after = written(
                book,
                sale_stub(new, s),
                s.lines,
                all_paid(new.tenders@),
                id,
                number,
                line_ids,
            );
            let o = after.orders.last();
            &&& after.orders.drop_last() == book.orders
            &&& o.id == id
            &&& o.kind == OrderKind::Sale
            &&& o.status == OrderStatus::Captured
            &&& o.session_id == new.session_id
            &&& o.client_uuid == new.client_uuid
            &&& o.sold_at == new.sold_at
            &&& o.refund_of_id is None
            &&& total(grosses(s.lines)) matches Some(t) && o.total == rounded(t, 2)
            &&& total(taxes(s.lines)) matches Some(t) && o.tax_total == rounded(t, 2)
            &&& total(full_prices(s.lines)) matches Some(full) && o.subtotal == rounded(full, 2)
                && (minus(full, total(grosses(s.lines))->0) matches Some(d) && o.discount_total
                == rounded(d, 2))
            &&& after.payments.len() == book.payments.len() + new.tenders@.len()
            &&& forall|j: int|
                0 <= j < new.tenders@.len() ==> {
                    let p = #[trigger] after.payments[book.payments.len() + j];
                    &&& p.order_id == id
                    &&& p.tender == new.tenders@[j].tender@
                    &&& p.amount == rounded(new.tenders@[j].amount@, 2)
                }
            &&& after.lines.len() == book.lines.len() + s.lines.len()
            &&& forall|i: int|
                0 <= i < s.lines.len() ==> {
                    let l = #[trigger] after.lines[book.lines.len() + i];
                    &&& l.order_id == id
                    &&& l.item_id == s.lines[i].item_id
                    &&& l.qty == s.lines[i].qty
                    &&& l.unit_price == s.lines[i].unit_price
                    &&& l.net == s.lines[i].gross
                    &&& l.tax_amount == s.lines[i].tax
                }
        }),
{
    lemma_sold(shop, sessions, registers, new, quotes);
    let s = sold(shop, sessions, registers, new, quotes)->Ok_0;
    let after = written(
        book,
        sale_stub(new, s),
        s.lines,
        all_paid(new.tenders@),
        id,
        number,
        line_ids,
    );
    lemma_totalled(s.lines, s.lines.len());
    assert(after.orders.drop_last() =~= book.orders);
    assert forall|j: int| 0 <= j < new.tenders@.len() implies ({
        let p = #[trigger] after.payments[book.payments.len() + j];
        &&& p.order_id == id
        &&& p.tender == new.tenders@[j].tender@
        &&& p.amount == rounded(new.tenders@[j].amount@, 2)
    }) by {
        assert(all_paid(new.tenders@)[j] == new.tenders@[j]@);
    }
}

/// The tenders of an accepted sale are good ones: cash, M-Pesa or a card, for a positive
/// amount; cash handed over covers the amount, and only cash gives change; an
/// M-Pesa payment has its code where one is asked for.
pub proof fn accepted_tenders_are_good(
    tenders: Seq<TenderInput>,
    due: Num,
    mpesa_needs_code: bool,
    j: int,
)
    requires
        tenders_refusal(tenders, due, mpesa_needs_code) is None,
        0 <= j < tenders.len(),
    ensures
        ({
            let t = tenders[j];
            &&& t.tender@ == "cash"@ || t.tender@ == "mpesa"@ || t.tender@ == "card"@
            &&& t.amount@.0 > 0
            &&& t.tender@ == "cash"@ ==> (t.tendered matches Some(given) ==> worth(given@) >= worth(
                t.amount@,
            ))
            &&& t.tender@ != "cash"@ ==> t.tendered is None
            &&& t.tender@ == "mpesa"@ && mpesa_needs_code ==> unless_blank(opt_text(t.reference))
                is Some
        }),
{
    lemma_each_is_good(tenders, mpesa_needs_code, j, tenders.len());
    reveal_strlit("cash");
    reveal_strlit("mpesa");
    reveal_strlit("card");
    assert("cash"@.len() != "mpesa"@.len());
}

proof fn lemma_each_is_good(tenders: Seq<TenderInput>, needs: bool, j: int, n: nat)
    requires
        0 <= j < n <= tenders.len(),
        tendered_to(tenders, needs, n) is Ok,
    ensures
        tender_refusal(tenders[j], j + 1, needs) is None,
    decreases n,
{
    if j < n - 1 {
        lemma_each_is_good(tenders, needs, j, (n - 1) as nat);
    }
}

/// The register's own list comes before the pricing rules, and the server's price
/// before the till's: a line sells at the list's price, or without one at the
/// rules', where the till showed the same; a till that showed another price is
/// refused online, and offline keeps its price, which is marked.
pub proof fn the_server_sets_the_price(
    line: SaleLineInput,
    own: Option<(Num, u128)>,
    price: Decimal,
    source: String,
    sku: Seq<char>,
    n: int,
    offline: bool,
)
    requires
        !line.manual_price,
    ensures
        ({
            let quote = Quote::Priced { price, source };
            let r = line_price(line, Some(own), quote, offline, sku, n);
            let server = match own {
                Some(p) => p.0,
                None => price@,
            };
            let agrees = worth(server) == worth(line.unit_price@);
            &&& agrees ==> r is Ok && (r->Ok_0).unit == server && !(r->Ok_0).drift
            &&& !agrees && offline ==> r is Ok && (r->Ok_0).unit == line.unit_price@ && (
            r->Ok_0).drift
            &&& !agrees && !offline ==> r is Err
            &&& r is Ok ==> (own matches Some(p) ==> (r->Ok_0).source == Source::List(p.1))
            &&& r is Ok && own is None ==> (r->Ok_0).source == Source::Resolved(source@)
        }),
{
}

/// A sale is to the buyer that it names, who must be active; else to the register's own, who
/// must be active too; else to whoever walks in. Customers are known by their ids.
pub proof fn sales_are_to_the_buyer_they_name(
    shop: Shop,
    sessions: Seq<Session>,
    registers: Seq<Register>,
    new: NewSale,
    quotes: Seq<Quote>,
    n: int,
    k: int,
)
    requires
        sold(shop, sessions, registers, new, quotes) is Ok,
        0 <= n < sessions.len(),
        sessions[n].id == new.session_id,
        forall|j: int|
            0 <= j < sessions.len() && j != n ==> (#[trigger] sessions[j]).id != sessions[n].id,
        0 <= k < registers.len(),
        registers[k].id == sessions[n].register_id,
        forall|j: int|
            0 <= j < registers.len() && j != k ==> (#[trigger] registers[j]).id != registers[k].id,
    ensures
        ({
            let buyer = sold(shop, sessions, registers, new, quotes)->Ok_0.buyer;
            &&& sessions[n].status == SessionStatus::Open
            &&& new.customer_id matches Some(id) ==> buyer.id == id && buyer.is_active
            &&& new.customer_id is None ==> (registers[k].default_customer_id matches Some(id)
                ==> buyer.id == id && buyer.is_active)
            &&& new.customer_id is None && registers[k].default_customer_id is None
                ==> buyer.code@ == shop.walk_in_code@
        }),
{
    let buyer = sold(shop, sessions, registers, new, quotes)->Ok_0.buyer;
    lemma_first_from(sessions, session_id(new.session_id), 0);
    assert(session_id(new.session_id)(sessions[n]));
    lemma_first_from(registers, register_id(registers[k].id), 0);
    assert(register_id(registers[k].id)(registers[k]));
    let wanted = match new.customer_id {
        Some(id) => Some(id),
        None => registers[k].default_customer_id,
    };
    match wanted {
        Some(id) => {
            lemma_first_from(shop.customers@, customer_id(id), 0);
        },
        None => {
            lemma_first_from(shop.customers@, customer_code(shop.walk_in_code@), 0);
        },
    }
}

/// A refund pays back its lines: the order that it writes is a refund of the sale in the session
/// that pays, its total is the sum of what the lines give back and its tax the sum of
/// theirs, and one payment, by the tender that was asked for, gives back the total, to
/// the cent.
pub proof fn refunds_pay_back_their_lines(
    book: Book,
    items: Seq<Item>,
    sessions: Seq<Session>,
    new: NewRefund,
    now: i64,
    id: u128,
    number: Seq<char>,
    line_ids: Seq<u128>,
)
    requires
        returned(book, items, sessions, new) is Ok,
    ensures
        ({
            let back = returned(book, items, sessions, new)->Ok_0;
            let after = written(
                book,
                refund_stub(new, back, now),
                back.lines,
                seq![refund_tender(new, back)],
                id,
                number,
                line_ids,
            );
            let o = after.orders.last();
            let p = after.payments.last();
            &&& after.orders.drop_last() == book.orders
            &&& after.payments.drop_last() == book.payments
            &&& o.id == id
            &&& o.kind == OrderKind::Refund
            &&& o.status == OrderStatus::Captured
            &&& o.session_id == new.session_id
            &&& o.client_uuid == new.client_uuid
            &&& o.sold_at == now
            &&& o.refund_of_id == Some(new.original_id)
            &&& total(grosses(back.lines)) matches Some(t) && o.total == rounded(t, 2) && p.amount
                == rounded(t, 2)
            &&& total(taxes(back.lines)) matches Some(t) && o.tax_total == rounded(t, 2)
            &&& p.order_id == id
            &&& p.tender == new.tender@
        }),
{
    let back = returned(book, items, sessions, new)->Ok_0;
    let after = written(
        book,
        refund_stub(new, back, now),
        back.lines,
        seq![refund_tender(new, back)],
        id,
        number,
        line_ids,
    );
    lemma_totalled(back.lines, back.lines.len());
    assert(after.orders.drop_last() =~= book.orders);
    assert(after.payments.drop_last() =~= book.payments);
}

} // verus!
