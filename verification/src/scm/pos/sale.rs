//! Orders of the point of sale: the small document a till writes per ticket.
//!
//! Prices include tax: the shelf price is what the customer pays, and the tax
//! inside a line is extracted, never added. The server reprices every line: an
//! online capture whose price disagrees is refused, an offline one keeps the
//! till's price, since that receipt already happened, and is flagged. A
//! captured order never changes; it is corrected by refunds against its lines,
//! or voided while its session is still open.

use super::pricing::{
    copy_source, list_price, opt_source, register_list_price, Customer, PriceList, PriceListItem,
    PriceSource, Quote, Source,
};
use super::session::session_id;
use crate::date::Date;
use crate::decimal::{
    abs, aligns, combined, minus, multiplies, normalized, opt, over, plain_text, plus, rounded,
    times, worth, zero, Decimal, Num,
};
use crate::error::{in_range, refusal, Error, Refusal};
use crate::scm::inventory::batch::Batch;
use crate::scm::inventory::item::{find_item_by_id, find_uom_by_id, item_id, uom_id, Item, Uom};
use crate::scm::inventory::stock::{money, round_money};
use crate::search::{find, first_where};
use crate::sums::{
    hundredth, lemma_percentage, lemma_rounded_worth, lemma_worth_sign, product_of, quotient_of,
    rounded_of, sum_of,
};
use crate::text::{
    blank, cat2, cat3, cat4, cat6, copy_text, digits, id_text, keep_text, opt_text, quote, quoted,
    same, show_id, show_nat, unless_blank,
};
use vstd::prelude::*;

verus! {

/// What an order is: a sale, or a refund against one.
#[derive(Clone, Copy, Debug, PartialEq, Eq, Structural)]
pub enum OrderKind {
    Sale,
    Refund,
}

pub open spec fn kind_text(k: OrderKind) -> Seq<char> {
    match k {
        OrderKind::Sale => "sale"@,
        OrderKind::Refund => "refund"@,
    }
}

impl OrderKind {
    pub fn as_str(self) -> (r: &'static str)
        ensures
            r@ == kind_text(self),
    {
        match self {
            OrderKind::Sale => "sale",
            OrderKind::Refund => "refund",
        }
    }

    /// The kind a stored text stands for.
    pub fn parse(value: &str) -> (r: Result<OrderKind, Error>)
        ensures
            match r {
                Ok(k) => value@ == kind_text(k),
                Err(e) => (forall|k: OrderKind| value@ != #[trigger] kind_text(k)) && e@
                    == Refusal::Internal("unknown pos order kind "@ + quoted(value@)),
            },
    {
        if same(value, "sale") {
            Ok(OrderKind::Sale)
        } else if same(value, "refund") {
            Ok(OrderKind::Refund)
        } else {
            let shown = quote(value);
            Err(Error::Internal(cat2("unknown pos order kind ", shown.as_str())))
        }
    }
}

/// A captured order never changes; voiding marks, never deletes.
#[derive(Clone, Copy, Debug, PartialEq, Eq, Structural)]
pub enum OrderStatus {
    Captured,
    Voided,
}

pub open spec fn status_text(s: OrderStatus) -> Seq<char> {
    match s {
        OrderStatus::Captured => "captured"@,
        OrderStatus::Voided => "voided"@,
    }
}

impl OrderStatus {
    pub fn as_str(self) -> (r: &'static str)
        ensures
            r@ == status_text(self),
    {
        match self {
            OrderStatus::Captured => "captured",
            OrderStatus::Voided => "voided",
        }
    }

    /// The status a stored text stands for.
    pub fn parse(value: &str) -> (r: Result<OrderStatus, Error>)
        ensures
            match r {
                Ok(s) => value@ == status_text(s),
                Err(e) => (forall|s: OrderStatus| value@ != #[trigger] status_text(s)) && e@
                    == Refusal::Internal("unknown pos order status "@ + quoted(value@)),
            },
    {
        if same(value, "captured") {
            Ok(OrderStatus::Captured)
        } else if same(value, "voided") {
            Ok(OrderStatus::Voided)
        } else {
            let shown = quote(value);
            Err(Error::Internal(cat2("unknown pos order status ", shown.as_str())))
        }
    }
}

/// No two kinds and no two statuses are written alike, so reading back what
/// was written gives what was written.
pub proof fn order_texts_are_unambiguous(a: OrderKind, b: OrderKind, s: OrderStatus, t: OrderStatus)
    ensures
        kind_text(a) == kind_text(b) ==> a == b,
        status_text(s) == status_text(t) ==> s == t,
{
    reveal_strlit("sale");
    reveal_strlit("refund");
    reveal_strlit("captured");
    reveal_strlit("voided");
    assert("sale"@[0] == 's');
    assert("refund"@[0] == 'r');
    assert("captured"@[0] == 'c');
    assert("voided"@[0] == 'v');
}

/// Whether a text names a tender that a till accepts.
pub open spec fn is_tender(t: Seq<char>) -> bool {
    t == "cash"@ || t == "mpesa"@ || t == "card"@
}

/// Whether a text names a tender that a till accepts: cash, M-Pesa or card.
pub fn known_tender(t: &str) -> (r: bool)
    ensures
        r == is_tender(t@),
{
    same(t, "cash") || same(t, "mpesa") || same(t, "card")
}

// ---------------------------------------------------------------------------
// Types
// ---------------------------------------------------------------------------

/// A line as the till rang it up.
#[derive(Clone, Copy, Debug)]
pub struct SaleLineInput {
    pub item_id: u128,
    pub qty: Decimal,
    /// The tax-inclusive unit price the till showed and charged.
    pub unit_price: Decimal,
    /// The cashier keyed the price by hand (an override-gated act).
    pub manual_price: bool,
    pub discount_pct: Option<Decimal>,
    pub batch_id: Option<u128>,
}

#[derive(Debug)]
pub struct TenderInput {
    pub tender: String,
    /// Amount applied to the sale.
    pub amount: Decimal,
    /// Cash physically handed over; change is what it exceeds the amount by.
    pub tendered: Option<Decimal>,
    /// M-Pesa confirmation code or card slip number.
    pub reference: Option<String>,
}

#[derive(Debug)]
pub struct NewSale {
    pub client_uuid: u128,
    pub session_id: u128,
    /// The buyer; none is the register's own, or whoever walks in.
    pub customer_id: Option<u128>,
    /// The moment of sale, in microseconds since the epoch.
    pub sold_at: i64,
    pub captured_offline: bool,
    pub lines: Vec<SaleLineInput>,
    pub tenders: Vec<TenderInput>,
    /// Whether manual prices and discounts are allowed.
    pub allow_override: bool,
    /// Till-measured: first line to payment, in seconds.
    pub capture_seconds: Option<i32>,
    /// Till-measured: taps, keys and scans the sale cost.
    pub input_count: Option<i32>,
    pub created_by: Option<u128>,
}

#[derive(Clone, Copy, Debug)]
pub struct RefundLineInput {
    /// The original order line being refunded.
    pub line_id: u128,
    pub qty: Decimal,
}

#[derive(Debug)]
pub struct NewRefund {
    pub client_uuid: u128,
    /// The open session the money leaves.
    pub session_id: u128,
    pub original_id: u128,
    pub lines: Vec<RefundLineInput>,
    /// The tender the money goes back by.
    pub tender: String,
    pub reference: Option<String>,
    pub created_by: Option<u128>,
}

/// When, by whom and why an order was voided.
#[derive(Debug)]
pub struct Voiding {
    pub at: i64,
    pub by: Option<u128>,
    pub reason: String,
}

/// A stored order.
#[derive(Debug)]
pub struct Order {
    pub id: u128,
    pub number: Option<String>,
    /// What the till calls it: a replay of the same sale finds it by this.
    pub client_uuid: u128,
    pub session_id: u128,
    pub kind: OrderKind,
    pub status: OrderStatus,
    pub customer_id: u128,
    /// The moment of sale, in microseconds since the epoch.
    pub sold_at: i64,
    pub currency: String,
    pub subtotal: Decimal,
    pub discount_total: Decimal,
    pub tax_total: Decimal,
    pub total: Decimal,
    pub refund_of_id: Option<u128>,
    pub captured_offline: bool,
    pub price_drift: bool,
    pub voided: Option<Voiding>,
    pub capture_seconds: Option<i32>,
    pub input_count: Option<i32>,
    pub created_by: Option<u128>,
}

/// What a stored order says.
pub struct OrderFacts {
    pub id: u128,
    pub number: Option<Seq<char>>,
    pub client_uuid: u128,
    pub session_id: u128,
    pub kind: OrderKind,
    pub status: OrderStatus,
    pub customer_id: u128,
    pub sold_at: i64,
    pub currency: Seq<char>,
    pub subtotal: Num,
    pub discount_total: Num,
    pub tax_total: Num,
    pub total: Num,
    pub refund_of_id: Option<u128>,
    pub captured_offline: bool,
    pub price_drift: bool,
    pub voided: Option<(i64, Option<u128>, Seq<char>)>,
    pub capture_seconds: Option<i32>,
    pub input_count: Option<i32>,
    pub created_by: Option<u128>,
}

impl View for Order {
    type V = OrderFacts;

    open spec fn view(&self) -> OrderFacts {
        OrderFacts {
            id: self.id,
            number: opt_text(self.number),
            client_uuid: self.client_uuid,
            session_id: self.session_id,
            kind: self.kind,
            status: self.status,
            customer_id: self.customer_id,
            sold_at: self.sold_at,
            currency: self.currency@,
            subtotal: self.subtotal@,
            discount_total: self.discount_total@,
            tax_total: self.tax_total@,
            total: self.total@,
            refund_of_id: self.refund_of_id,
            captured_offline: self.captured_offline,
            price_drift: self.price_drift,
            voided: match self.voided {
                Some(v) => Some((v.at, v.by, v.reason@)),
                None => None,
            },
            capture_seconds: self.capture_seconds,
            input_count: self.input_count,
            created_by: self.created_by,
        }
    }
}

/// A stored line of an order.
#[derive(Debug)]
pub struct OrderLine {
    pub id: u128,
    pub order_id: u128,
    pub line_no: usize,
    pub item_id: u128,
    pub description: String,
    pub qty: Decimal,
    pub unit_price: Decimal,
    pub price_source: Option<PriceSource>,
    pub discount_pct: Option<Decimal>,
    pub tax_code_id: Option<u128>,
    /// The tax inside the line.
    pub tax_amount: Decimal,
    /// What the customer pays for the line.
    pub net: Decimal,
    pub batch_id: Option<u128>,
    pub refund_of_line_id: Option<u128>,
}

/// What a stored line says.
pub struct LineFacts {
    pub id: u128,
    pub order_id: u128,
    pub line_no: nat,
    pub item_id: u128,
    pub description: Seq<char>,
    pub qty: Num,
    pub unit_price: Num,
    pub price_source: Option<Source>,
    pub discount_pct: Option<Num>,
    pub tax_code_id: Option<u128>,
    pub tax_amount: Num,
    pub net: Num,
    pub batch_id: Option<u128>,
    pub refund_of_line_id: Option<u128>,
}

impl View for OrderLine {
    type V = LineFacts;

    open spec fn view(&self) -> LineFacts {
        LineFacts {
            id: self.id,
            order_id: self.order_id,
            line_no: self.line_no as nat,
            item_id: self.item_id,
            description: self.description@,
            qty: self.qty@,
            unit_price: self.unit_price@,
            price_source: opt_source(self.price_source),
            discount_pct: opt(self.discount_pct),
            tax_code_id: self.tax_code_id,
            tax_amount: self.tax_amount@,
            net: self.net@,
            batch_id: self.batch_id,
            refund_of_line_id: self.refund_of_line_id,
        }
    }
}

/// A stored tender of an order; a split payment is several of them.
#[derive(Debug)]
pub struct OrderPayment {
    pub order_id: u128,
    pub tender: String,
    pub amount: Decimal,
    pub tendered: Option<Decimal>,
    pub reference: Option<String>,
}

/// What a stored tender says.
pub struct PaymentFacts {
    pub order_id: u128,
    pub tender: Seq<char>,
    pub amount: Num,
    pub tendered: Option<Num>,
    pub reference: Option<Seq<char>>,
}

impl View for OrderPayment {
    type V = PaymentFacts;

    open spec fn view(&self) -> PaymentFacts {
        PaymentFacts {
            order_id: self.order_id,
            tender: self.tender@,
            amount: self.amount@,
            tendered: opt(self.tendered),
            reference: opt_text(self.reference),
        }
    }
}

/// The rate of a tax code.
#[derive(Clone, Copy, Debug)]
pub struct Rate {
    pub tax_code_id: u128,
    pub rate: Decimal,
}

/// A line after pricing, ready to be written.
#[derive(Debug)]
pub struct PricedLine {
    pub item_id: u128,
    pub description: String,
    /// The item's tax code for sales.
    pub sales_tax_code_id: Option<u128>,
    pub qty: Decimal,
    pub unit_price: Decimal,
    pub price_source: Option<PriceSource>,
    pub discount_pct: Option<Decimal>,
    pub batch_id: Option<u128>,
    pub drift: bool,
    pub refund_of_line_id: Option<u128>,
    pub tax_code_id: Option<u128>,
    pub computed_gross: Decimal,
    pub computed_tax: Decimal,
}

/// What a priced line says.
pub struct Priced {
    pub item_id: u128,
    pub description: Seq<char>,
    pub sales_tax_code_id: Option<u128>,
    pub qty: Num,
    pub unit_price: Num,
    pub price_source: Option<Source>,
    pub discount_pct: Option<Num>,
    pub batch_id: Option<u128>,
    pub drift: bool,
    pub refund_of_line_id: Option<u128>,
    pub tax_code_id: Option<u128>,
    pub gross: Num,
    pub tax: Num,
}

impl View for PricedLine {
    type V = Priced;

    open spec fn view(&self) -> Priced {
        Priced {
            item_id: self.item_id,
            description: self.description@,
            sales_tax_code_id: self.sales_tax_code_id,
            qty: self.qty@,
            unit_price: self.unit_price@,
            price_source: opt_source(self.price_source),
            discount_pct: opt(self.discount_pct),
            batch_id: self.batch_id,
            drift: self.drift,
            refund_of_line_id: self.refund_of_line_id,
            tax_code_id: self.tax_code_id,
            gross: self.computed_gross@,
            tax: self.computed_tax@,
        }
    }
}

pub open spec fn all_priced(lines: Seq<PricedLine>) -> Seq<Priced> {
    lines.map_values(|l: PricedLine| l@)
}

/// What an order comes to.
#[derive(Clone, Copy, Debug)]
pub struct Totals {
    pub subtotal: Decimal,
    pub discount: Decimal,
    pub tax: Decimal,
    pub total: Decimal,
}

/// What totals say.
pub struct Sums {
    pub subtotal: Num,
    pub discount: Num,
    pub tax: Num,
    pub total: Num,
}

impl View for Totals {
    type V = Sums;

    open spec fn view(&self) -> Sums {
        Sums {
            subtotal: self.subtotal@,
            discount: self.discount@,
            tax: self.tax@,
            total: self.total@,
        }
    }
}

// ---------------------------------------------------------------------------
// Who and what can be sold
// ---------------------------------------------------------------------------

/// What a till sells from.
#[derive(Debug)]
pub struct Shop {
    pub items: Vec<Item>,
    pub uoms: Vec<Uom>,
    pub batches: Vec<Batch>,
    pub rates: Vec<Rate>,
    pub lists: Vec<PriceList>,
    pub entries: Vec<PriceListItem>,
    pub customers: Vec<Customer>,
    /// The code of the customer who just walks in.
    pub walk_in_code: String,
    /// Whether an M-Pesa payment needs its confirmation code.
    pub require_mpesa_reference: bool,
}

/// How a complaint about a line begins.
pub open spec fn at_line(n: int) -> Seq<char> {
    "line "@ + digits(n as nat) + ": "@
}

fn line_prefix(n: usize) -> (r: String)
    ensures
        r@ == at_line(n as int),
{
    let shown = show_nat(n as u64);
    cat3("line ", shown.as_str(), ": ")
}

/// Why an item cannot be sold at the till, where it cannot.
pub open spec fn sellable_refusal(items: Seq<Item>, id: u128, n: int) -> Option<Refusal> {
    match first_where(items, item_id(id)) {
        None => Some(Refusal::NotFound("item "@ + id_text(id))),
        Some(i) => if !i.is_active || !i.is_sellable {
            Some(Refusal::Validation(at_line(n) + "item "@ + i.sku@ + " is not sellable"@))
        } else if i.track_serials {
            Some(
                Refusal::Validation(
                    at_line(n) + "item "@ + i.sku@
                        + " tracks serial numbers and cannot be sold at the till"@,
                ),
            )
        } else {
            None
        },
    }
}

/// Why a quantity cannot be sold, where it cannot.
pub open spec fn sold_qty_refusal(uoms: Seq<Uom>, item: Item, qty: Num, n: int) -> Option<Refusal> {
    if qty.0 <= 0 {
        Some(Refusal::Validation(at_line(n) + "quantity must be positive"@))
    } else {
        match first_where(uoms, uom_id(item.uom_id)) {
            None => Some(Refusal::Internal("stock uom missing for "@ + item.sku@)),
            Some(u) => if !u.fractional && normalized(qty).1 > 0 {
                Some(Refusal::Validation(at_line(n) + item.sku@ + " sells in whole "@ + u.code@))
            } else {
                None
            },
        }
    }
}

pub open spec fn batch_id(id: u128) -> spec_fn(Batch) -> bool {
    |b: Batch| b.id == id
}

/// Why a lot cannot be sold, where it cannot: an item that tracks lots needs
/// one of its own that is active, another item none.
pub open spec fn lot_refusal(batches: Seq<Batch>, item: Item, lot: Option<u128>, n: int) -> Option<
    Refusal,
> {
    match (lot, item.track_batches) {
        (Some(id), true) => match first_where(batches, batch_id(id)) {
            Some(b) if b.item_id == item.id => if !b.is_active {
                Some(
                    Refusal::Validation(
                        at_line(n) + "batch "@ + b.batch_no@ + " of "@ + item.sku@
                            + " is not active"@,
                    ),
                )
            } else {
                None
            },
            _ => Some(
                Refusal::Validation(at_line(n) + "the batch does not belong to "@ + item.sku@),
            ),
        },
        (None, true) => Some(
            Refusal::Validation(
                at_line(n) + "item "@ + item.sku@ + " tracks batches; pick the lot being sold"@,
            ),
        ),
        (Some(_), false) => Some(
            Refusal::Validation(at_line(n) + "item "@ + item.sku@ + " does not track batches"@),
        ),
        (None, false) => None,
    }
}

/// Why a discount is refused, where it is: it needs the override, and is a
/// percentage.
pub open spec fn discount_refusal(pct: Option<Decimal>, allow_override: bool, n: int) -> Option<
    Refusal,
> {
    match pct {
        None => None,
        Some(p) => if p@.0 != 0 && !allow_override {
            Some(
                Refusal::Validation(
                    at_line(n) + "discounts need the override permission or a supervisor PIN"@,
                ),
            )
        } else if p@.0 < 0 || worth((100int, 0nat)) < worth(p@) {
            Some(
                Refusal::Validation(at_line(n) + "discount must be between 0 and 100 percent"@),
            )
        } else {
            None
        },
    }
}

pub(crate) fn check_sellable(items: &Vec<Item>, id: u128, n: usize) -> (r: Result<usize, Error>)
    ensures
        refusal(r) == sellable_refusal(items@, id, n as int),
        r matches Ok(i) ==> i < items@.len() && first_where(items@, item_id(id)) == Some(
            items@[i as int],
        ),
{
    let i = match find_item_by_id(items, id) {
        Some(i) => i,
        None => {
            let shown = show_id(id);
            return Err(Error::NotFound(cat2("item ", shown.as_str())));
        },
    };
    let item = &items[i];
    let head = line_prefix(n);
    if !item.is_active || !item.is_sellable {
        return Err(
            Error::Validation(
                cat4(head.as_str(), "item ", item.sku.as_str(), " is not sellable"),
            ),
        );
    }
    if item.track_serials {
        return Err(
            Error::Validation(
                cat4(
                    head.as_str(),
                    "item ",
                    item.sku.as_str(),
                    " tracks serial numbers and cannot be sold at the till",
                ),
            ),
        );
    }
    Ok(i)
}

pub(crate) fn check_qty(uoms: &Vec<Uom>, item: &Item, qty: Decimal, n: usize) -> (r: Result<(), Error>)
    ensures
        refusal(r) == sold_qty_refusal(uoms@, *item, qty@, n as int),
{
    let head = line_prefix(n);
    if !qty.is_positive() {
        return Err(Error::Validation(cat2(head.as_str(), "quantity must be positive")));
    }
    match find_uom_by_id(uoms, item.uom_id) {
        None => Err(Error::Internal(cat2("stock uom missing for ", item.sku.as_str()))),
        Some(i) => {
            if !uoms[i].fractional && qty.normalize().scale() > 0 {
                return Err(
                    Error::Validation(
                        cat4(
                            head.as_str(),
                            item.sku.as_str(),
                            " sells in whole ",
                            uoms[i].code.as_str(),
                        ),
                    ),
                );
            }
            Ok(())
        },
    }
}

fn find_lot(batches: &Vec<Batch>, id: u128) -> (r: Option<usize>)
    ensures
        match r {
            Some(i) => i < batches@.len() && first_where(batches@, batch_id(id)) == Some(
                batches@[i as int],
            ),
            None => first_where(batches@, batch_id(id)) is None,
        },
{
    find(batches, Ghost(batch_id(id)), |x: &Batch| -> (b: bool)
        ensures
            b == batch_id(id)(*x),
        { x.id == id })
}

pub(crate) fn check_lot(batches: &Vec<Batch>, item: &Item, lot: Option<u128>, n: usize) -> (r: Result<
    (),
    Error,
>)
    ensures
        refusal(r) == lot_refusal(batches@, *item, lot, n as int),
{
    let head = line_prefix(n);
    match lot {
        Some(id) => {
            if !item.track_batches {
                return Err(
                    Error::Validation(
                        cat4(
                            head.as_str(),
                            "item ",
                            item.sku.as_str(),
                            " does not track batches",
                        ),
                    ),
                );
            }
            if let Some(i) = find_lot(batches, id) {
                let b = &batches[i];
                if b.item_id == item.id {
                    if !b.is_active {
                        return Err(
                            Error::Validation(
                                cat6(
                                    head.as_str(),
                                    "batch ",
                                    b.batch_no.as_str(),
                                    " of ",
                                    item.sku.as_str(),
                                    " is not active",
                                ),
                            ),
                        );
                    }
                    return Ok(());
                }
            }
            Err(
                Error::Validation(
                    cat3(head.as_str(), "the batch does not belong to ", item.sku.as_str()),
                ),
            )
        },
        None => {
            if item.track_batches {
                return Err(
                    Error::Validation(
                        cat4(
                            head.as_str(),
                            "item ",
                            item.sku.as_str(),
                            " tracks batches; pick the lot being sold",
                        ),
                    ),
                );
            }
            Ok(())
        },
    }
}

pub(crate) fn check_discount(pct: Option<Decimal>, allow_override: bool, n: usize) -> (r: Result<(), Error>)
    ensures
        refusal(r) == discount_refusal(pct, allow_override, n as int),
{
    if let Some(p) = pct {
        let head = line_prefix(n);
        if !p.is_zero() && !allow_override {
            return Err(
                Error::Validation(
                    cat2(
                        head.as_str(),
                        "discounts need the override permission or a supervisor PIN",
                    ),
                ),
            );
        }
        if p.is_negative() || Decimal::one_hundred().less(&p) {
            return Err(
                Error::Validation(
                    cat2(head.as_str(), "discount must be between 0 and 100 percent"),
                ),
            );
        }
    }
    Ok(())
}

// ---------------------------------------------------------------------------
// Prices
// ---------------------------------------------------------------------------

/// What a line is sold at: the price, where it came from, and whether it
/// drifted from the server's.
pub struct Price {
    pub unit: Num,
    pub source: Source,
    pub drift: bool,
}

/// The server's price of a line and where it came from: the register's own
/// list first, then the pricing rules.
pub open spec fn server_price(own: Option<(Num, u128)>, quote: Quote) -> Result<
    (Num, Source),
    Refusal,
> {
    match own {
        Some((p, id)) => Ok((p, Source::List(id))),
        None => match quote {
            Quote::Priced { price, source } => Ok((price@, Source::Resolved(source@))),
            Quote::Refused(e) => Err(e@),
        },
    }
}

/// The price of a line. A manual price is the pricing rules' to allow. Another
/// one must agree with the server's, or was charged offline and is kept.
pub open spec fn line_price(
    line: SaleLineInput,
    own: Option<Option<(Num, u128)>>,
    quote: Quote,
    offline: bool,
    sku: Seq<char>,
    n: int,
) -> Result<Price, Refusal> {
    if line.manual_price {
        match quote {
            Quote::Priced { price, source } => Ok(
                Price { unit: price@, source: Source::Resolved(source@), drift: false },
            ),
            Quote::Refused(e) => Err(e@),
        }
    } else {
        match own {
            None => Err(Refusal::Overflow),
            Some(own) => match server_price(own, quote) {
                Err(r) => Err(r),
                Ok((unit, source)) => if worth(unit) == worth(line.unit_price@) {
                    Ok(Price { unit, source, drift: false })
                } else if offline {
                    Ok(Price { unit: line.unit_price@, source, drift: true })
                } else {
                    Err(
                        Refusal::Validation(
                            at_line(n) + "the price of "@ + sku + " is now "@ + plain_text(unit)
                                + "; refresh the catalog"@,
                        ),
                    )
                },
            },
        }
    }
}

pub(crate) fn price_line(
    shop: &Shop,
    own: Option<u128>,
    item: &Item,
    line: &SaleLineInput,
    quote: &Quote,
    currency: &str,
    sold_on: Date,
    offline: bool,
    n: usize,
) -> (r: Result<(Decimal, PriceSource, bool), Error>)
    ensures
        match line_price(
            *line,
            list_price(shop.lists@, shop.entries@, own, *item, line.qty@, currency@, sold_on@),
            *quote,
            offline,
            item.sku@,
            n as int,
        ) {
            Ok(p) => r is Ok && (r->Ok_0).0@ == p.unit && (r->Ok_0).1@ == p.source && (
            r->Ok_0).2 == p.drift,
            Err(why) => refusal(r) == Some(why),
        },
{
    if line.manual_price {
        return match quote {
            Quote::Priced { price, source } => Ok(
                (*price, PriceSource::Resolved(source.clone()), false),
            ),
            Quote::Refused(e) => Err(e.copy()),
        };
    }
    let listed = register_list_price(&shop.lists, &shop.entries, own, item, line.qty, currency, sold_on)?;
    let (unit, source) = match listed {
        Some((p, id)) => (p, PriceSource::List(id)),
        None => match quote {
            Quote::Priced { price, source } => (*price, PriceSource::Resolved(source.clone())),
            Quote::Refused(e) => {
                return Err(e.copy());
            },
        },
    };
    if unit.equals(&line.unit_price) {
        return Ok((unit, source, false));
    }
    if offline {
        return Ok((line.unit_price, source, true));
    }
    let head = line_prefix(n);
    let now = unit.text();
    Err(
        Error::Validation(
            cat6(
                head.as_str(),
                "the price of ",
                item.sku.as_str(),
                " is now ",
                now.as_str(),
                "; refresh the catalog",
            ),
        ),
    )
}

// ---------------------------------------------------------------------------
// Totals
// ---------------------------------------------------------------------------

/// The percentage that is taken off a line.
pub open spec fn off(l: Priced) -> Num {
    match l.discount_pct {
        Some(p) => p,
        None => zero(),
    }
}

/// The percentage that is left of a line.
pub open spec fn left_of(l: Priced) -> Num {
    combined((100, 0), off(l), -1)
}

/// What a line comes to: quantity times price, less the discount, to the cent.
pub open spec fn gross_of(l: Priced) -> Option<Num> {
    rounded_of(
        quotient_of(
            product_of(times(l.qty, l.unit_price), minus((100int, 0nat), off(l))),
            Some((100int, 0nat)),
        ),
        2,
    )
}

/// The tax inside an amount at a percentage: extracted, never added.
pub open spec fn tax_inside(gross: Num, rate: Num) -> Option<Num> {
    rounded_of(quotient_of(times(gross, rate), plus((100int, 0nat), rate)), 2)
}

pub open spec fn rate_for(id: u128) -> spec_fn(Rate) -> bool {
    |r: Rate| r.tax_code_id == id
}

/// The rate that a line is taxed at: none for an exempt buyer, or without a
/// code that has a rate.
pub open spec fn rate_of(rates: Seq<Rate>, code: Option<u128>, exempt: bool) -> Num {
    if exempt {
        zero()
    } else {
        match code {
            None => zero(),
            Some(id) => match first_where(rates, rate_for(id)) {
                Some(r) => r.rate@,
                None => zero(),
            },
        }
    }
}

/// A line with its money filled in; `None` where it leaves the range.
pub open spec fn taxed(l: Priced, rates: Seq<Rate>, exempt: bool) -> Option<Priced> {
    match gross_of(l) {
        None => None,
        Some(gross) => match tax_inside(gross, rate_of(rates, l.sales_tax_code_id, exempt)) {
            None => None,
            Some(tax) => Some(
                Priced {
                    gross,
                    tax,
                    tax_code_id: if exempt {
                        None
                    } else {
                        l.sales_tax_code_id
                    },
                    ..l
                },
            ),
        },
    }
}

/// The first `n` lines with their money filled in.
pub open spec fn all_taxed_to(lines: Seq<Priced>, rates: Seq<Rate>, exempt: bool, n: nat) -> Option<
    Seq<Priced>,
>
    decreases n,
{
    if n == 0 {
        Some(Seq::empty())
    } else {
        match (
            all_taxed_to(lines, rates, exempt, (n - 1) as nat),
            taxed(lines[n - 1], rates, exempt),
        ) {
            (Some(rest), Some(l)) => Some(rest.push(l)),
            _ => None,
        }
    }
}

/// What the first `n` lines come to, without the discount.
pub struct Running {
    pub subtotal: Num,
    pub tax: Num,
    pub total: Num,
}

pub open spec fn totalled_to(lines: Seq<Priced>, n: nat) -> Option<Running>
    decreases n,
{
    if n == 0 {
        Some(Running { subtotal: zero(), tax: zero(), total: zero() })
    } else {
        let l = lines[n - 1];
        match totalled_to(lines, (n - 1) as nat) {
            None => None,
            Some(t) => match (
                sum_of(Some(t.subtotal), rounded_of(times(l.qty, l.unit_price), 2)),
                plus(t.tax, l.tax),
                plus(t.total, l.gross),
            ) {
                (Some(subtotal), Some(tax), Some(total)) => Some(Running { subtotal, tax, total }),
                _ => None,
            },
        }
    }
}

/// What lines come to: the discount is what the total falls short of the list
/// prices.
pub open spec fn totals_of(lines: Seq<Priced>) -> Option<Sums> {
    match totalled_to(lines, lines.len()) {
        None => None,
        Some(t) => match minus(t.subtotal, t.total) {
            None => None,
            Some(discount) => Some(
                Sums { subtotal: t.subtotal, discount, tax: t.tax, total: t.total },
            ),
        },
    }
}

proof fn lemma_taxed_stops(lines: Seq<Priced>, rates: Seq<Rate>, exempt: bool, i: nat, n: nat)
    requires
        i <= n,
        all_taxed_to(lines, rates, exempt, i) is None,
    ensures
        all_taxed_to(lines, rates, exempt, n) is None,
    decreases n,
{
    if i < n {
        lemma_taxed_stops(lines, rates, exempt, i, (n - 1) as nat);
    }
}

proof fn lemma_totalled_stops(lines: Seq<Priced>, i: nat, n: nat)
    requires
        i <= n,
        totalled_to(lines, i) is None,
    ensures
        totalled_to(lines, n) is None,
    decreases n,
{
    if i < n {
        lemma_totalled_stops(lines, i, (n - 1) as nat);
    }
}

pub(crate) fn find_rate(rates: &Vec<Rate>, code: Option<u128>, exempt: bool) -> (r: Decimal)
    ensures
        r@ == rate_of(rates@, code, exempt),
{
    if exempt {
        return Decimal::zero();
    }
    match code {
        None => Decimal::zero(),
        Some(id) => {
            let found = find(rates, Ghost(rate_for(id)), |x: &Rate| -> (b: bool)
                ensures
                    b == rate_for(id)(*x),
                { x.tax_code_id == id });
            match found {
                Some(i) => rates[i].rate,
                None => Decimal::zero(),
            }
        },
    }
}

fn fill(l: &mut PricedLine, rates: &Vec<Rate>, exempt: bool) -> (done: bool)
    ensures
        match taxed(old(l)@, rates@, exempt) {
            Some(next) => done && final(l)@ == next,
            None => !done && final(l)@ == old(l)@,
        },
{
    let hundred = Decimal::one_hundred();
    let pct = match l.discount_pct {
        Some(p) => p,
        None => Decimal::zero(),
    };
    let gross = match l.qty.checked_mul(l.unit_price) {
        None => None,
        Some(full) => match hundred.checked_sub(pct) {
            None => None,
            Some(part) => match full.checked_mul(part) {
                None => None,
                Some(product) => product.checked_div(hundred),
            },
        },
    };
    let gross = match gross {
        Some(g) => round_money(g),
        None => {
            return false;
        },
    };
    let rate = find_rate(rates, l.sales_tax_code_id, exempt);
    let tax = match gross.checked_mul(rate) {
        None => None,
        Some(product) => match hundred.checked_add(rate) {
            None => None,
            Some(base) => product.checked_div(base),
        },
    };
    match tax {
        Some(t) => {
            l.computed_gross = gross;
            l.computed_tax = round_money(t);
            l.tax_code_id = if exempt {
                None
            } else {
                l.sales_tax_code_id
            };
            true
        },
        None => false,
    }
}

pub(crate) fn add_up(lines: &Vec<PricedLine>) -> (r: Result<Totals, Error>)
    ensures
        match totals_of(all_priced(lines@)) {
            Some(sums) => r is Ok && r->Ok_0@ == sums,
            None => refusal(r) == Some(Refusal::Overflow),
        },
{
    let ghost all = all_priced(lines@);
    let mut subtotal = Decimal::zero();
    let mut tax = Decimal::zero();
    let mut total = Decimal::zero();
    let mut i: usize = 0;
    while i < lines.len()
        invariant
            i <= lines.len(),
            all == all_priced(lines@),
            totalled_to(all, i as nat) == Some(
                Running { subtotal: subtotal@, tax: tax@, total: total@ },
            ),
        decreases lines.len() - i,
    {
        let l = &lines[i];
        proof {
            assert(all[i as int] == l@);
            if totalled_to(all, (i + 1) as nat) is None {
                lemma_totalled_stops(all, (i + 1) as nat, all.len());
            }
        }
        let listed = in_range(l.qty.checked_mul(l.unit_price))?;
        subtotal = in_range(subtotal.checked_add(round_money(listed)))?;
        tax = in_range(tax.checked_add(l.computed_tax))?;
        total = in_range(total.checked_add(l.computed_gross))?;
        i = i + 1;
    }
    let discount = in_range(subtotal.checked_sub(total))?;
    Ok(Totals { subtotal, discount, tax, total })
}

/// Fill in each line's money, and what the order comes to. `None` for the
/// lines where an amount leaves the range.
pub(crate) fn compute_totals(lines: Vec<PricedLine>, rates: &Vec<Rate>, exempt: bool) -> (r: Result<
    (Vec<PricedLine>, Totals),
    Error,
>)
    ensures
        r matches Ok(done) ==> done.0@.len() == lines@.len(),
        ({
            let filled = all_taxed_to(all_priced(lines@), rates@, exempt, lines@.len());
            match filled {
                None => refusal(r) == Some(Refusal::Overflow),
                Some(ls) => match totals_of(ls) {
                    None => refusal(r) == Some(Refusal::Overflow),
                    Some(sums) => r is Ok && all_priced((r->Ok_0).0@) == ls && (r->Ok_0).1@
                        == sums,
                },
            }
        }),
{
    let ghost all = all_priced(lines@);
    let mut filled = lines;
    let mut i: usize = 0;
    assert(all_priced(filled@) =~= all);
    while i < filled.len()
        invariant
            i <= filled.len(),
            all == all_priced(lines@),
            lines@.len() == all.len(),
            filled@.len() == all.len(),
            all_taxed_to(all, rates@, exempt, i as nat) is Some,
            all_taxed_to(all, rates@, exempt, i as nat)->0.len() == i,
            forall|j: int|
                0 <= j < i ==> (#[trigger] filled@[j])@ == all_taxed_to(
                    all,
                    rates@,
                    exempt,
                    i as nat,
                )->0[j],
            forall|j: int| i <= j < filled@.len() ==> (#[trigger] filled@[j])@ == all[j],
        decreases filled.len() - i,
    {
        assert(filled@[i as int]@ == all[i as int]);
        let done = fill(&mut filled[i], rates, exempt);
        if !done {
            proof {
                lemma_taxed_stops(all, rates@, exempt, (i + 1) as nat, all.len());
            }
            return Err(Error::Overflow);
        }
        i = i + 1;
    }
    assert(all_priced(filled@) =~= all_taxed_to(all, rates@, exempt, all.len())->0);
    let totals = add_up(&filled)?;
    Ok((filled, totals))
}

// ---------------------------------------------------------------------------
// Tenders
// ---------------------------------------------------------------------------

pub open spec fn at_tender(n: int) -> Seq<char> {
    "tender "@ + digits(n as nat) + ": "@
}

/// Why a tender is refused by itself, where it is.
pub open spec fn tender_refusal(t: TenderInput, n: int, mpesa_needs_code: bool) -> Option<Refusal> {
    if !is_tender(t.tender@) {
        Some(
            Refusal::Validation(
                at_tender(n) + "unknown tender "@ + quoted(t.tender@)
                    + " (expected one of cash, mpesa, card)"@,
            ),
        )
    } else if t.amount@.0 <= 0 {
        Some(Refusal::Validation(at_tender(n) + "amount must be positive"@))
    } else if t.tender@ == "cash"@ {
        if t.tendered matches Some(given) && worth(given@) < worth(t.amount@) {
            Some(
                Refusal::Validation(
                    at_tender(n) + "cash handed over is less than the amount applied"@,
                ),
            )
        } else {
            None
        }
    } else if t.tendered is Some {
        Some(Refusal::Validation(at_tender(n) + "change only exists for cash"@))
    } else if t.tender@ == "mpesa"@ && mpesa_needs_code && unless_blank(opt_text(t.reference))
        is None {
        Some(
            Refusal::Validation(at_tender(n) + "an M-Pesa payment needs its confirmation code"@),
        )
    } else {
        None
    }
}

/// What the first `n` tenders sum to, or the first refusal among them.
pub open spec fn tendered_to(tenders: Seq<TenderInput>, mpesa_needs_code: bool, n: nat) -> Result<
    Num,
    Refusal,
>
    decreases n,
{
    if n == 0 {
        Ok(zero())
    } else {
        match tendered_to(tenders, mpesa_needs_code, (n - 1) as nat) {
            Err(r) => Err(r),
            Ok(sum) => match tender_refusal(tenders[n - 1], n as int, mpesa_needs_code) {
                Some(r) => Err(r),
                None => match plus(sum, tenders[n - 1].amount@) {
                    Some(next) => Ok(next),
                    None => Err(Refusal::Overflow),
                },
            },
        }
    }
}

/// Why tenders do not pay a total, where they do not: each must be good, and
/// together they come to the total, to the cent.
pub open spec fn tenders_refusal(
    tenders: Seq<TenderInput>,
    total: Num,
    mpesa_needs_code: bool,
) -> Option<Refusal> {
    match tendered_to(tenders, mpesa_needs_code, tenders.len()) {
        Err(r) => Some(r),
        Ok(sum) => if worth(money(sum)) != worth(money(total)) {
            Some(
                Refusal::Validation(
                    "tenders sum to "@ + plain_text(money(sum)) + " but the sale totals "@
                        + plain_text(money(total)),
                ),
            )
        } else {
            None
        },
    }
}

proof fn lemma_tendered_stops(tenders: Seq<TenderInput>, needs: bool, i: nat, n: nat)
    requires
        i <= n,
        tendered_to(tenders, needs, i) is Err,
    ensures
        tendered_to(tenders, needs, n) == tendered_to(tenders, needs, i),
    decreases n,
{
    if i < n {
        lemma_tendered_stops(tenders, needs, i, (n - 1) as nat);
    }
}

fn check_tender(t: &TenderInput, n: usize, mpesa_needs_code: bool) -> (r: Result<(), Error>)
    ensures
        refusal(r) == tender_refusal(*t, n as int, mpesa_needs_code),
{
    proof {
        reveal_strlit("cash");
        reveal_strlit("mpesa");
    }
    let shown = show_nat(n as u64);
    let head = cat3("tender ", shown.as_str(), ": ");
    if !known_tender(t.tender.as_str()) {
        let name = quote(t.tender.as_str());
        return Err(
            Error::Validation(
                cat4(
                    head.as_str(),
                    "unknown tender ",
                    name.as_str(),
                    " (expected one of cash, mpesa, card)",
                ),
            ),
        );
    }
    if !t.amount.is_positive() {
        return Err(Error::Validation(cat2(head.as_str(), "amount must be positive")));
    }
    if same(t.tender.as_str(), "cash") {
        if let Some(given) = t.tendered {
            if given.less(&t.amount) {
                return Err(
                    Error::Validation(
                        cat2(
                            head.as_str(),
                            "cash handed over is less than the amount applied",
                        ),
                    ),
                );
            }
        }
        return Ok(());
    }
    if t.tendered.is_some() {
        return Err(Error::Validation(cat2(head.as_str(), "change only exists for cash")));
    }
    let coded = match &t.reference {
        Some(c) => !blank(c.as_str()),
        None => false,
    };
    if same(t.tender.as_str(), "mpesa") && mpesa_needs_code && !coded {
        return Err(
            Error::Validation(
                cat2(head.as_str(), "an M-Pesa payment needs its confirmation code"),
            ),
        );
    }
    Ok(())
}

/// Check tenders: known kinds, positive amounts that sum exactly to the total;
/// cash covers what it is applied to, and M-Pesa carries its code where it
/// must.
pub fn validate_tenders(tenders: &Vec<TenderInput>, total: Decimal, mpesa_needs_code: bool) -> (r:
    Result<(), Error>)
    ensures
        refusal(r) == tenders_refusal(tenders@, total@, mpesa_needs_code),
{
    let mut sum = Decimal::zero();
    let mut i: usize = 0;
    while i < tenders.len()
        invariant
            i <= tenders.len(),
            tendered_to(tenders@, mpesa_needs_code, i as nat) == Ok::<Num, Refusal>(sum@),
        decreases tenders.len() - i,
    {
        proof {
            if tendered_to(tenders@, mpesa_needs_code, (i + 1) as nat) is Err {
                lemma_tendered_stops(tenders@, mpesa_needs_code, (i + 1) as nat, tenders@.len());
            }
        }
        check_tender(&tenders[i], i + 1, mpesa_needs_code)?;
        sum = in_range(sum.checked_add(tenders[i].amount))?;
        i = i + 1;
    }
    let paid = round_money(sum);
    let due = round_money(total);
    if !paid.equals(&due) {
        let a = paid.text();
        let b = due.text();
        return Err(
            Error::Validation(
                cat4("tenders sum to ", a.as_str(), " but the sale totals ", b.as_str()),
            ),
        );
    }
    Ok(())
}

// ---------------------------------------------------------------------------
// The book of orders
// ---------------------------------------------------------------------------

/// The orders, their lines and their tenders.
#[derive(Debug)]
pub struct SaleService {
    pub orders: Vec<Order>,
    pub lines: Vec<OrderLine>,
    pub payments: Vec<OrderPayment>,
}

/// What the book holds.
#[verifier::ext_equal]
pub struct Book {
    pub orders: Seq<OrderFacts>,
    pub lines: Seq<LineFacts>,
    pub payments: Seq<PaymentFacts>,
}

impl View for SaleService {
    type V = Book;

    open spec fn view(&self) -> Book {
        Book {
            orders: self.orders@.map_values(|o: Order| o@),
            lines: self.lines@.map_values(|l: OrderLine| l@),
            payments: self.payments@.map_values(|p: OrderPayment| p@),
        }
    }
}

/// An order that is about to be written.
#[derive(Debug)]
pub struct Ticket {
    pub client_uuid: u128,
    pub session_id: u128,
    pub kind: OrderKind,
    pub customer_id: u128,
    pub sold_at: i64,
    pub currency: String,
    pub totals: Totals,
    pub refund_of_id: Option<u128>,
    pub captured_offline: bool,
    pub price_drift: bool,
    pub capture_seconds: Option<i32>,
    pub input_count: Option<i32>,
    pub created_by: Option<u128>,
}

/// What a ticket says.
pub struct Stub {
    pub client_uuid: u128,
    pub session_id: u128,
    pub kind: OrderKind,
    pub customer_id: u128,
    pub sold_at: i64,
    pub currency: Seq<char>,
    pub sums: Sums,
    pub refund_of_id: Option<u128>,
    pub captured_offline: bool,
    pub price_drift: bool,
    pub capture_seconds: Option<i32>,
    pub input_count: Option<i32>,
    pub created_by: Option<u128>,
}

impl View for Ticket {
    type V = Stub;

    open spec fn view(&self) -> Stub {
        Stub {
            client_uuid: self.client_uuid,
            session_id: self.session_id,
            kind: self.kind,
            customer_id: self.customer_id,
            sold_at: self.sold_at,
            currency: self.currency@,
            sums: self.totals@,
            refund_of_id: self.refund_of_id,
            captured_offline: self.captured_offline,
            price_drift: self.price_drift,
            capture_seconds: self.capture_seconds,
            input_count: self.input_count,
            created_by: self.created_by,
        }
    }
}

/// What an order's row gets: its id and number, and the ids of its lines.
#[derive(Debug)]
pub struct Naming {
    pub id: u128,
    pub number: String,
    pub line_ids: Vec<u128>,
}

/// The order that a ticket becomes.
pub open spec fn order_of(t: Stub, id: u128, number: Seq<char>) -> OrderFacts {
    OrderFacts {
        id,
        number: Some(number),
        client_uuid: t.client_uuid,
        session_id: t.session_id,
        kind: t.kind,
        status: OrderStatus::Captured,
        customer_id: t.customer_id,
        sold_at: t.sold_at,
        currency: t.currency,
        subtotal: money(t.sums.subtotal),
        discount_total: money(t.sums.discount),
        tax_total: money(t.sums.tax),
        total: money(t.sums.total),
        refund_of_id: t.refund_of_id,
        captured_offline: t.captured_offline,
        price_drift: t.price_drift,
        voided: None,
        capture_seconds: t.capture_seconds,
        input_count: t.input_count,
        created_by: t.created_by,
    }
}

/// The stored line that a priced line becomes.
pub open spec fn line_of(l: Priced, order_id: u128, id: u128, line_no: nat) -> LineFacts {
    LineFacts {
        id,
        order_id,
        line_no,
        item_id: l.item_id,
        description: l.description,
        qty: l.qty,
        unit_price: l.unit_price,
        price_source: l.price_source,
        discount_pct: l.discount_pct,
        tax_code_id: l.tax_code_id,
        tax_amount: l.tax,
        net: l.gross,
        batch_id: l.batch_id,
        refund_of_line_id: l.refund_of_line_id,
    }
}

/// What a tender says, before it is written.
pub struct Paid {
    pub tender: Seq<char>,
    pub amount: Num,
    pub tendered: Option<Num>,
    pub reference: Option<Seq<char>>,
}

impl View for TenderInput {
    type V = Paid;

    open spec fn view(&self) -> Paid {
        Paid {
            tender: self.tender@,
            amount: self.amount@,
            tendered: opt(self.tendered),
            reference: opt_text(self.reference),
        }
    }
}

/// The stored tender that a tender becomes.
pub open spec fn payment_of(t: Paid, order_id: u128) -> PaymentFacts {
    PaymentFacts {
        order_id,
        tender: t.tender,
        amount: money(t.amount),
        tendered: rounded_of(t.tendered, 2),
        reference: unless_blank(t.reference),
    }
}

/// The book with one more order in it.
pub open spec fn written(
    book: Book,
    t: Stub,
    lines: Seq<Priced>,
    tenders: Seq<Paid>,
    id: u128,
    number: Seq<char>,
    line_ids: Seq<u128>,
) -> Book {
    Book {
        orders: book.orders.push(order_of(t, id, number)),
        lines: book.lines + Seq::new(
            lines.len(),
            |i: int| line_of(lines[i], id, line_ids[i], (i + 1) as nat),
        ),
        payments: book.payments + Seq::new(tenders.len(), |i: int| payment_of(tenders[i], id)),
    }
}

pub open spec fn all_paid(tenders: Seq<TenderInput>) -> Seq<Paid> {
    tenders.map_values(|t: TenderInput| t@)
}

fn line_row(l: &PricedLine, order_id: u128, id: u128, line_no: usize) -> (r: OrderLine)
    ensures
        r@ == line_of(l@, order_id, id, line_no as nat),
{
    OrderLine {
        id,
        order_id,
        line_no,
        item_id: l.item_id,
        description: l.description.clone(),
        qty: l.qty,
        unit_price: l.unit_price,
        price_source: copy_source(&l.price_source),
        discount_pct: l.discount_pct,
        tax_code_id: l.tax_code_id,
        tax_amount: l.computed_tax,
        net: l.computed_gross,
        batch_id: l.batch_id,
        refund_of_line_id: l.refund_of_line_id,
    }
}

fn payment_row(t: &TenderInput, order_id: u128) -> (r: OrderPayment)
    ensures
        r@ == payment_of(t@, order_id),
{
    let tendered = match t.tendered {
        Some(given) => Some(round_money(given)),
        None => None,
    };
    OrderPayment {
        order_id,
        tender: t.tender.clone(),
        amount: round_money(t.amount),
        tendered,
        reference: keep_text(copy_text(&t.reference)),
    }
}

impl SaleService {
    /// Write an order, its lines and its tenders.
    pub(crate) fn insert_order(
        &mut self,
        t: Ticket,
        lines: &Vec<PricedLine>,
        tenders: &Vec<TenderInput>,
        naming: Naming,
    )
        requires
            naming.line_ids@.len() == lines@.len(),
        ensures
            final(self)@ == written(
                old(self)@,
                t@,
                all_priced(lines@),
                all_paid(tenders@),
                naming.id,
                naming.number@,
                naming.line_ids@,
            ),
    {
        let ghost before = self@;
        let mut i: usize = 0;
        while i < lines.len()
            invariant
                i <= lines.len(),
                naming.line_ids@.len() == lines@.len(),
                self.orders == old(self).orders,
                self.payments == old(self).payments,
                self@.lines == before.lines + Seq::new(
                    i as nat,
                    |j: int|
                        line_of(
                            all_priced(lines@)[j],
                            naming.id,
                            naming.line_ids@[j],
                            (j + 1) as nat,
                        ),
                ),
            decreases lines.len() - i,
        {
            let row = line_row(&lines[i], naming.id, naming.line_ids[i], i + 1);
            let ghost held = self@.lines;
            self.lines.push(row);
            assert(self@.lines =~= held.push(row@));
            i = i + 1;
        }
        let mut k: usize = 0;
        while k < tenders.len()
            invariant
                k <= tenders.len(),
                self.orders == old(self).orders,
                self@.lines == before.lines + Seq::new(
                    lines@.len(),
                    |j: int|
                        line_of(
                            all_priced(lines@)[j],
                            naming.id,
                            naming.line_ids@[j],
                            (j + 1) as nat,
                        ),
                ),
                self@.payments == before.payments + Seq::new(
                    k as nat,
                    |j: int| payment_of(all_paid(tenders@)[j], naming.id),
                ),
            decreases tenders.len() - k,
        {
            let row = payment_row(&tenders[k], naming.id);
            let ghost held = self@.payments;
            self.payments.push(row);
            assert(self@.payments =~= held.push(row@));
            k = k + 1;
        }
        let row = Order {
            id: naming.id,
            number: Some(naming.number),
            client_uuid: t.client_uuid,
            session_id: t.session_id,
            kind: t.kind,
            status: OrderStatus::Captured,
            customer_id: t.customer_id,
            sold_at: t.sold_at,
            currency: t.currency,
            subtotal: round_money(t.totals.subtotal),
            discount_total: round_money(t.totals.discount),
            tax_total: round_money(t.totals.tax),
            total: round_money(t.totals.total),
            refund_of_id: t.refund_of_id,
            captured_offline: t.captured_offline,
            price_drift: t.price_drift,
            voided: None,
            capture_seconds: t.capture_seconds,
            input_count: t.input_count,
            created_by: t.created_by,
        };
        self.orders.push(row);
        proof {
            let full = written(
                before,
                t@,
                all_priced(lines@),
                all_paid(tenders@),
                naming.id,
                naming.number@,
                naming.line_ids@,
            );
            assert(self@.orders =~= full.orders);
            assert(self@.lines =~= full.lines);
            assert(self@.payments =~= full.payments);
        }
    }
}

/// What a line of ordinary size comes to is its quantity at its price, less
/// exactly the discount, to the cent.
pub proof fn line_totals_are_exact(l: Priced)
    requires
        ({
            let left = left_of(l);
            &&& aligns((100, 0), off(l), -1)
            &&& multiplies(l.qty, l.unit_price)
            &&& abs((l.qty.0 * l.unit_price.0) * left.0) < 0x4_0000_0000_0000_0000
            &&& l.qty.1 + l.unit_price.1 + left.1 <= 19
        }),
    ensures
        ({
            let left = left_of(l);
            gross_of(l) matches Some(g) && worth(g) == worth(
                rounded(
                    hundredth(
                        (
                            (l.qty.0 * l.unit_price.0) * left.0,
                            l.qty.1 + l.unit_price.1 + left.1,
                        ),
                    ),
                    2,
                ),
            )
        }),
{
    let left = left_of(l);
    let product = times(l.qty, l.unit_price)->0;
    let exact: Num = ((l.qty.0 * l.unit_price.0) * left.0, l.qty.1 + l.unit_price.1 + left.1);
    if l.qty.0 == 0 || l.unit_price.0 == 0 {
        assert(l.qty.0 * l.unit_price.0 == 0) by (nonlinear_arith)
            requires
                l.qty.0 == 0 || l.unit_price.0 == 0,
        ;
        assert(0 * left.0 == 0);
        lemma_percentage(product, left, 2);
        lemma_worth_sign(hundredth((0, left.1)));
        lemma_worth_sign(hundredth(exact));
        lemma_rounded_worth(hundredth((0, left.1)), hundredth(exact), 2);
    } else {
        lemma_percentage(product, left, 2);
    }
}

} // verus!
