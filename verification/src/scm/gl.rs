//! The bookkeeping of stock: every posted document with a financial effect
//! asks the ledger to book it.
//!
//! | Document | Debit | Credit |
//! |---|---|---|
//! | Direct stock receipt, count up | Inventory | Stock adjustments |
//! | Stock issue | Cost of goods sold | Inventory |
//! | Count down | Stock adjustments | Inventory |
//! | Transfer | nothing | nothing |
//! | Goods receipt against an order | Inventory | Received, not invoiced |
//! | Purchase invoice | Received, not invoiced (and charges) | Payables |
//! | Reversal, cancellation | the mirror, by sign | |
//!
//! Accounts are named by role, resolved item by item: the item's own role, its
//! category's, or the default. Amounts are the stock ledger's own values.

use super::inventory::item::{
    category_id, find_category_by_id, find_item_by_id, item_id, Category, Item,
};
use super::inventory::moves::{MoveDoc, MoveType};
use super::inventory::stock::{money, round_cost, round_money, LedgerRow};
use crate::accounting::account::keys;
use crate::date::Date;
use crate::decimal::{
    abs, half_even, limit, max_places, minus, negated, plus, pow10, rescaled, times, worth, zero,
    Decimal, Num,
};
use crate::error::{in_range, refusal, Error, Refusal};
use crate::port::{GlLine, GlPostingRequested};
use crate::search::{first_from, first_where, lemma_first_from};
use crate::sums::{
    difference_of, kept_places, lemma_combined_exact, lemma_pow10_adds, lemma_pow10_positive,
    lemma_worth_negated, lemma_worth_sign, lemma_zero, product_of, quotient_of, rounded_of, sum_of,
    within,
};
use crate::text::{cat2, cat3, cat4, cat5, cat7, id_text, opt_text, same, show_id, trim, trimmed};
use vstd::prelude::*;

verus! {

// ---------------------------------------------------------------------------
// Building entries
// ---------------------------------------------------------------------------

/// What is booked to a role so far: positive a net debit, negative a net
/// credit.
#[derive(Debug)]
pub struct NetLine {
    pub role: String,
    pub amount: Decimal,
    pub memo: Option<String>,
}

/// What a net line says.
pub struct Net {
    pub role: Seq<char>,
    pub amount: Num,
    pub memo: Option<Seq<char>>,
}

impl View for NetLine {
    type V = Net;

    open spec fn view(&self) -> Net {
        Net { role: self.role@, amount: self.amount@, memo: opt_text(self.memo) }
    }
}

pub open spec fn nets(net: Seq<NetLine>) -> Seq<Net> {
    net.map_values(|n: NetLine| n@)
}

/// What a line of a request says.
pub struct Booked {
    pub role: Seq<char>,
    pub debit: Num,
    pub credit: Num,
    pub memo: Option<Seq<char>>,
}

pub open spec fn booked(l: GlLine) -> Booked {
    Booked {
        role: l.account_role@,
        debit: l.debit@,
        credit: l.credit@,
        memo: opt_text(l.memo),
    }
}

pub open spec fn all_booked(lines: Seq<GlLine>) -> Seq<Booked> {
    lines.map_values(|l: GlLine| booked(l))
}

pub open spec fn with_role(role: Seq<char>) -> spec_fn(Net) -> bool {
    |n: Net| n.role == role
}

/// The nets after an amount was added to a role: to the role's line where it
/// has one, on a line of its own otherwise. Nothing adds nothing. `None` where
/// a sum leaves the range.
pub open spec fn added(net: Seq<Net>, role: Seq<char>, amount: Num, memo: Option<Seq<char>>) -> Option<
    Seq<Net>,
> {
    if amount.0 == 0 {
        Some(net)
    } else {
        match first_from(net, with_role(role), 0) {
            Some(i) => match plus(net[i].amount, amount) {
                Some(sum) => Some(net.update(i, Net { amount: sum, ..net[i] })),
                None => None,
            },
            None => Some(net.push(Net { role, amount, memo })),
        }
    }
}

/// The line that a net becomes: on the side of its sign, to the cent.
pub open spec fn line_of(n: Net) -> Booked {
    if n.amount.0 > 0 {
        Booked { role: n.role, debit: money(n.amount), credit: zero(), memo: n.memo }
    } else {
        Booked { role: n.role, debit: zero(), credit: money(negated(n.amount)), memo: n.memo }
    }
}

/// The lines of the first `n` nets; a net of zero has none.
pub open spec fn finished_to(net: Seq<Net>, n: nat) -> Seq<Booked>
    decreases n,
{
    if n == 0 {
        Seq::empty()
    } else {
        let rest = finished_to(net, (n - 1) as nat);
        if net[n - 1].amount.0 == 0 {
            rest
        } else {
            rest.push(line_of(net[n - 1]))
        }
    }
}

/// The lines that nets become.
pub open spec fn finished(net: Seq<Net>) -> Seq<Booked> {
    finished_to(net, net.len())
}

/// Accumulates what is booked per role, then emits one line per role.
#[derive(Debug)]
pub struct EntryBuilder {
    pub net: Vec<NetLine>,
}

fn copied(memo: Option<&str>) -> (r: Option<String>)
    ensures
        opt_text(r) == opt_str(memo),
{
    match memo {
        Some(m) => Some(m.to_owned()),
        None => None,
    }
}

pub open spec fn opt_str(s: Option<&str>) -> Option<Seq<char>> {
    match s {
        Some(t) => Some(t@),
        None => None,
    }
}

/// Whether an addition was done: false, with nothing changed, where a sum
/// leaves the range.
pub open spec fn is_added(
    done: bool,
    after: Seq<Net>,
    before: Seq<Net>,
    role: Seq<char>,
    amount: Num,
    memo: Option<Seq<char>>,
) -> bool {
    match added(before, role, amount, memo) {
        Some(next) => done && after == next,
        None => !done && after == before,
    }
}

impl EntryBuilder {
    pub fn new() -> (r: EntryBuilder)
        ensures
            nets(r.net@) == Seq::<Net>::empty(),
    {
        let r = EntryBuilder { net: Vec::new() };
        assert(nets(r.net@) =~= Seq::<Net>::empty());
        r
    }

    fn add(&mut self, role: &str, amount: Decimal, memo: Option<&str>) -> (done: bool)
        ensures
            is_added(
                done,
                nets(final(self).net@),
                nets(old(self).net@),
                role@,
                amount@,
                opt_str(memo),
            ),
    {
        if amount.is_zero() {
            return true;
        }
        let ghost before = self.net@;
        let mut i: usize = 0;
        while i < self.net.len()
            invariant
                i <= self.net.len(),
                self.net@ == before,
                amount@.0 != 0,
                before == old(self).net@,
                first_from(nets(before), with_role(role@), 0) == first_from(
                    nets(before),
                    with_role(role@),
                    i as int,
                ),
            decreases self.net.len() - i,
        {
            assert(nets(before)[i as int] == before[i as int]@);
            if same(self.net[i].role.as_str(), role) {
                match self.net[i].amount.checked_add(amount) {
                    Some(sum) => {
                        self.net[i].amount = sum;
                        assert(nets(self.net@) =~= nets(before).update(
                            i as int,
                            Net { amount: sum@, ..nets(before)[i as int] },
                        ));
                        return true;
                    },
                    None => {
                        return false;
                    },
                }
            }
            i = i + 1;
        }
        let line = NetLine { role: role.to_owned(), amount, memo: copied(memo) };
        self.net.push(line);
        assert(nets(self.net@) =~= nets(before).push(line@));
        true
    }

    pub fn debit(&mut self, role: &str, amount: Decimal, memo: Option<&str>) -> (done: bool)
        ensures
            is_added(
                done,
                nets(final(self).net@),
                nets(old(self).net@),
                role@,
                amount@,
                opt_str(memo),
            ),
    {
        self.add(role, amount, memo)
    }

    pub fn credit(&mut self, role: &str, amount: Decimal, memo: Option<&str>) -> (done: bool)
        ensures
            is_added(
                done,
                nets(final(self).net@),
                nets(old(self).net@),
                role@,
                negated(amount@),
                opt_str(memo),
            ),
    {
        self.add(role, amount.negate(), memo)
    }

    /// The finished lines; none where everything netted to zero.
    pub fn lines(self) -> (r: Vec<GlLine>)
        ensures
            all_booked(r@) == finished(nets(self.net@)),
    {
        let ghost all = nets(self.net@);
        let mut out: Vec<GlLine> = Vec::new();
        assert(all_booked(out@) =~= finished_to(all, 0));
        let mut i: usize = 0;
        while i < self.net.len()
            invariant
                i <= self.net.len(),
                all == nets(self.net@),
                all_booked(out@) == finished_to(all, i as nat),
            decreases self.net.len() - i,
        {
            let n = &self.net[i];
            assert(all[i as int] == n@);
            if !n.amount.is_zero() {
                let role = n.role.clone();
                let memo = n.memo.clone();
                let line = if n.amount.is_positive() {
                    GlLine::debit(role, round_money(n.amount), memo)
                } else {
                    GlLine::credit(role, round_money(n.amount.negate()), memo)
                };
                let ghost before = out@;
                out.push(line);
                assert(booked(line) == line_of(all[i as int]));
                assert(all_booked(out@) =~= all_booked(before).push(booked(line)));
            }
            i = i + 1;
        }
        out
    }
}

// ---------------------------------------------------------------------------
// Roles
// ---------------------------------------------------------------------------

/// The roles one item books against.
#[derive(Debug)]
pub struct ItemRoles {
    pub inventory: String,
    pub cogs: String,
    pub adjustment: String,
}

/// What roles say.
pub struct Roles {
    pub inventory: Seq<char>,
    pub cogs: Seq<char>,
    pub adjustment: Seq<char>,
}

impl View for ItemRoles {
    type V = Roles;

    open spec fn view(&self) -> Roles {
        Roles { inventory: self.inventory@, cogs: self.cogs@, adjustment: self.adjustment@ }
    }
}

/// The first of the item's own role, its category's and the default.
pub open spec fn picked(
    own: Option<Seq<char>>,
    category: Option<Seq<char>>,
    default: Seq<char>,
) -> Seq<char> {
    match own {
        Some(r) => r,
        None => match category {
            Some(r) => r,
            None => default,
        },
    }
}

/// The category of an item, where it has one that exists.
pub open spec fn category_of(categories: Seq<Category>, item: Item) -> Option<Category> {
    match item.category_id {
        Some(id) => first_where(categories, category_id(id)),
        None => None,
    }
}

pub open spec fn roles_of_item(categories: Seq<Category>, item: Item) -> Roles {
    let cat = category_of(categories, item);
    Roles {
        inventory: picked(
            opt_text(item.inventory_account_role),
            if cat is Some {
                opt_text(cat->0.inventory_account_role)
            } else {
                None
            },
            keys::INVENTORY@,
        ),
        cogs: picked(
            opt_text(item.cogs_account_role),
            if cat is Some {
                opt_text(cat->0.cogs_account_role)
            } else {
                None
            },
            keys::COGS@,
        ),
        adjustment: picked(
            opt_text(item.adjustment_account_role),
            if cat is Some {
                opt_text(cat->0.adjustment_account_role)
            } else {
                None
            },
            keys::STOCK_ADJUSTMENT@,
        ),
    }
}

/// The roles of the item with that id, where it exists.
pub open spec fn roles_of(items: Seq<Item>, categories: Seq<Category>, id: u128) -> Option<Roles> {
    match first_where(items, item_id(id)) {
        Some(i) => Some(roles_of_item(categories, i)),
        None => None,
    }
}

fn pick(own: &Option<String>, category: Option<&Option<String>>, default: &str) -> (r: String)
    ensures
        r@ == picked(
            opt_text(*own),
            match category {
                Some(c) => opt_text(*c),
                None => None,
            },
            default@,
        ),
{
    if let Some(r) = own {
        return r.clone();
    }
    if let Some(c) = category {
        if let Some(r) = c {
            return r.clone();
        }
    }
    default.to_owned()
}

/// Resolve the roles of an item: its own, its category's, or the defaults.
pub fn item_roles(items: &Vec<Item>, categories: &Vec<Category>, id: u128) -> (r: Option<ItemRoles>)
    ensures
        match roles_of(items@, categories@, id) {
            Some(roles) => r is Some && r->0@ == roles,
            None => r is None,
        },
{
    let item = match find_item_by_id(items, id) {
        Some(i) => &items[i],
        None => {
            return None;
        },
    };
    let at = match item.category_id {
        Some(id) => find_category_by_id(categories, id),
        None => None,
    };
    let roles = match at {
        Some(k) => {
            let c = &categories[k];
            ItemRoles {
                inventory: pick(
                    &item.inventory_account_role,
                    Some(&c.inventory_account_role),
                    keys::INVENTORY,
                ),
                cogs: pick(&item.cogs_account_role, Some(&c.cogs_account_role), keys::COGS),
                adjustment: pick(
                    &item.adjustment_account_role,
                    Some(&c.adjustment_account_role),
                    keys::STOCK_ADJUSTMENT,
                ),
            }
        },
        None => ItemRoles {
            inventory: pick(&item.inventory_account_role, None, keys::INVENTORY),
            cogs: pick(&item.cogs_account_role, None, keys::COGS),
            adjustment: pick(&item.adjustment_account_role, None, keys::STOCK_ADJUSTMENT),
        },
    };
    Some(roles)
}

// ---------------------------------------------------------------------------
// Stock movements
// ---------------------------------------------------------------------------

/// The side that a row of the stock ledger is booked against.
pub enum Contra {
    /// The item's cost of goods sold.
    Cogs,
    /// The item's stock adjustments.
    Adjustment,
    /// Goods received and not invoiced.
    Grni,
}

pub open spec fn contra_role(contra: Contra, roles: Roles) -> Seq<char> {
    match contra {
        Contra::Cogs => roles.cogs,
        Contra::Adjustment => roles.adjustment,
        Contra::Grni => keys::GRNI@,
    }
}

/// The nets of the first `n` rows: each adds its value to the item's inventory
/// and takes it from the other side.
pub open spec fn moved_to(
    rows: Seq<LedgerRow>,
    items: Seq<Item>,
    categories: Seq<Category>,
    contra: Contra,
    n: nat,
) -> Result<Seq<Net>, Refusal>
    decreases n,
{
    if n == 0 {
        Ok(Seq::empty())
    } else {
        match moved_to(rows, items, categories, contra, (n - 1) as nat) {
            Err(r) => Err(r),
            Ok(net) => match roles_of(items, categories, rows[n - 1].item_id) {
                None => Err(Refusal::Internal("ledger row without an item"@)),
                Some(roles) => {
                    let value = rows[n - 1].value_delta@;
                    match added(net, roles.inventory, value, None) {
                        None => Err(Refusal::Overflow),
                        Some(half) => match added(
                            half,
                            contra_role(contra, roles),
                            negated(value),
                            None,
                        ) {
                            None => Err(Refusal::Overflow),
                            Some(whole) => Ok(whole),
                        },
                    }
                },
            },
        }
    }
}

proof fn lemma_moved_stops(
    rows: Seq<LedgerRow>,
    items: Seq<Item>,
    categories: Seq<Category>,
    contra: Contra,
    i: nat,
    n: nat,
)
    requires
        i <= n,
        moved_to(rows, items, categories, contra, i) is Err,
    ensures
        moved_to(rows, items, categories, contra, n) == moved_to(
            rows,
            items,
            categories,
            contra,
            i,
        ),
    decreases n,
{
    if i < n {
        lemma_moved_stops(rows, items, categories, contra, i, (n - 1) as nat);
    }
}

/// The lines of a movement's rows, or why they cannot be booked.
pub open spec fn movement_lines(
    rows: Seq<LedgerRow>,
    items: Seq<Item>,
    categories: Seq<Category>,
    contra: Contra,
) -> Result<Seq<Booked>, Refusal> {
    match moved_to(rows, items, categories, contra, rows.len()) {
        Ok(net) => Ok(finished(net)),
        Err(r) => Err(r),
    }
}

pub(crate) fn book_rows(
    rows: &Vec<LedgerRow>,
    items: &Vec<Item>,
    categories: &Vec<Category>,
    contra: Contra,
) -> (r: Result<Vec<GlLine>, Error>)
    ensures
        match movement_lines(rows@, items@, categories@, contra) {
            Ok(lines) => r is Ok && all_booked(r->Ok_0@) == lines,
            Err(why) => refusal(r) == Some(why),
        },
{
    let mut entry = EntryBuilder::new();
    let mut i: usize = 0;
    while i < rows.len()
        invariant
            i <= rows.len(),
            moved_to(rows@, items@, categories@, contra, i as nat) == Ok::<Seq<Net>, Refusal>(
                nets(entry.net@),
            ),
        decreases rows.len() - i,
    {
        let row = &rows[i];
        proof {
            if moved_to(rows@, items@, categories@, contra, (i + 1) as nat) is Err {
                lemma_moved_stops(
                    rows@,
                    items@,
                    categories@,
                    contra,
                    (i + 1) as nat,
                    rows@.len(),
                );
            }
        }
        let roles = match item_roles(items, categories, row.item_id) {
            Some(roles) => roles,
            None => {
                return Err(Error::Internal("ledger row without an item".to_owned()));
            },
        };
        let against = match contra {
            Contra::Cogs => roles.cogs.as_str(),
            Contra::Adjustment => roles.adjustment.as_str(),
            Contra::Grni => keys::GRNI,
        };
        if !entry.debit(roles.inventory.as_str(), row.value_delta, None) {
            return Err(Error::Overflow);
        }
        if !entry.credit(against, row.value_delta, None) {
            return Err(Error::Overflow);
        }
        i = i + 1;
    }
    Ok(entry.lines())
}

/// What a movement is called in its entry's memo.
pub open spec fn move_label(t: MoveType) -> Seq<char> {
    match t {
        MoveType::Receipt => "Stock receipt"@,
        MoveType::Issue => "Stock issue"@,
        MoveType::Adjustment => "Stock adjustment"@,
        MoveType::Transfer => ""@,
    }
}

/// What a request says, apart from its lines.
pub open spec fn is_request(
    req: GlPostingRequested,
    tenant_id: Option<u128>,
    source: Seq<char>,
    entry_date: Date,
    memo: Seq<char>,
) -> bool {
    &&& req.tenant_id == tenant_id
    &&& req.source@ == source
    &&& req.entry_date == entry_date
    &&& req.memo@ == memo
    &&& req.currency is None
}

/// Whether a movement books nothing by itself: a document that generated it
/// books it, or it is a transfer.
pub open spec fn books_nothing(doc: MoveDoc) -> bool {
    doc.source is Some || doc.move_type == MoveType::Transfer
}

pub open spec fn move_contra(t: MoveType) -> Contra {
    if t == MoveType::Issue {
        Contra::Cogs
    } else {
        Contra::Adjustment
    }
}

/// The entry of an inventory movement; nothing for transfers, movements
/// without value, and movements that another document generated.
pub fn stock_move_request(
    doc: &MoveDoc,
    rows: &Vec<LedgerRow>,
    items: &Vec<Item>,
    categories: &Vec<Category>,
    tenant_id: Option<u128>,
) -> (r: Result<Option<GlPostingRequested>, Error>)
    ensures
        if books_nothing(*doc) {
            r is Ok && r->Ok_0 is None
        } else {
            match movement_lines(rows@, items@, categories@, move_contra(doc.move_type)) {
                Err(why) => refusal(r) == Some(why),
                Ok(lines) => r is Ok && (match r->Ok_0 {
                    None => lines.len() == 0,
                    Some(req) => {
                        let number = match doc.number {
                            Some(n) => n@,
                            None => Seq::empty(),
                        };
                        &&& lines.len() > 0
                        &&& all_booked(req.lines@) == lines
                        &&& is_request(
                            req,
                            tenant_id,
                            "scm.move:"@ + id_text(doc.id) + ":post"@,
                            doc.entry_date,
                            trimmed(move_label(doc.move_type) + " "@ + number),
                        )
                    },
                }),
            }
        },
{
    if doc.source.is_some() || doc.move_type == MoveType::Transfer {
        return Ok(None);
    }
    let contra = if doc.move_type == MoveType::Issue {
        Contra::Cogs
    } else {
        Contra::Adjustment
    };
    let lines = book_rows(rows, items, categories, contra)?;
    assert(all_booked(lines@).len() == lines@.len());
    if lines.len() == 0 {
        return Ok(None);
    }
    let label = match doc.move_type {
        MoveType::Receipt => "Stock receipt",
        MoveType::Issue => "Stock issue",
        MoveType::Adjustment => "Stock adjustment",
        MoveType::Transfer => "",
    };
    let none = String::new();
    let number = match &doc.number {
        Some(n) => n.as_str(),
        None => none.as_str(),
    };
    let memo = cat3(label, " ", number);
    let id = show_id(doc.id);
    Ok(
        Some(
            GlPostingRequested {
                tenant_id,
                source: cat3("scm.move:", id.as_str(), ":post"),
                entry_date: doc.entry_date,
                memo: trim(memo.as_str()),
                currency: None,
                lines,
            },
        ),
    )
}

/// The entry of a goods receipt, or of its reversal: the value of the stock
/// movement against what is received and not invoiced. A reversal's rows are
/// negative, so that it yields the mirror.
pub fn goods_receipt_request(
    receipt_id: u128,
    rows: &Vec<LedgerRow>,
    items: &Vec<Item>,
    categories: &Vec<Category>,
    order_number: Option<&str>,
    entry_date: Date,
    tenant_id: Option<u128>,
) -> (r: Result<Option<GlPostingRequested>, Error>)
    ensures
        match movement_lines(rows@, items@, categories@, Contra::Grni) {
            Err(why) => refusal(r) == Some(why),
            Ok(lines) => r is Ok && (match r->Ok_0 {
                None => lines.len() == 0,
                Some(req) => {
                    &&& lines.len() > 0
                    &&& all_booked(req.lines@) == lines
                    &&& is_request(
                        req,
                        tenant_id,
                        "scm.receipt:"@ + id_text(receipt_id) + ":post"@,
                        entry_date,
                        "Goods receipt against "@ + (match order_number {
                            Some(n) => n@,
                            None => "purchase order"@,
                        }),
                    )
                },
            }),
        },
{
    let lines = book_rows(rows, items, categories, Contra::Grni)?;
    assert(all_booked(lines@).len() == lines@.len());
    if lines.len() == 0 {
        return Ok(None);
    }
    let id = show_id(receipt_id);
    let order = match order_number {
        Some(n) => n,
        None => "purchase order",
    };
    Ok(
        Some(
            GlPostingRequested {
                tenant_id,
                source: cat3("scm.receipt:", id.as_str(), ":post"),
                entry_date,
                memo: cat2("Goods receipt against ", order),
                currency: None,
                lines,
            },
        ),
    )
}

// ---------------------------------------------------------------------------
// Purchase invoices
// ---------------------------------------------------------------------------

/// A billed line: its quantity, and the effective price of the order line it
/// bills, where that still exists.
#[derive(Clone, Copy, Debug)]
pub struct InvoiceLine {
    pub qty: Decimal,
    pub order_price: Option<Decimal>,
}

/// The order that an invoice bills.
#[derive(Debug)]
pub struct OrderRef {
    pub number: Option<String>,
}

/// A purchase invoice.
#[derive(Debug)]
pub struct PurchaseInvoice {
    pub id: u128,
    pub number: Option<String>,
    pub supplier_invoice_no: String,
    pub invoice_date: Date,
    pub order_id: Option<u128>,
    pub exchange_rate: Decimal,
    pub discount_pct: Option<Decimal>,
    pub discount_amount: Option<Decimal>,
    pub other_charges: Option<Decimal>,
}

pub open spec fn or_zero(d: Option<Decimal>) -> Num {
    match d {
        Some(d) => d@,
        None => zero(),
    }
}

/// What the first `n` lines come to: in the invoice's currency, and in base at
/// the cost that the receipt was valued with.
pub open spec fn billed_to(lines: Seq<InvoiceLine>, rate: Num, n: nat) -> Result<(Num, Num), Refusal>
    decreases n,
{
    if n == 0 {
        Ok((zero(), zero()))
    } else {
        match billed_to(lines, rate, (n - 1) as nat) {
            Err(r) => Err(r),
            Ok((subtotal, goods)) => match lines[n - 1].order_price {
                None => Err(Refusal::Internal("invoice line lost its order line"@)),
                Some(price) => {
                    let qty = Some(lines[n - 1].qty@);
                    let line = rounded_of(product_of(qty, Some(price@)), 2);
                    let unit = rounded_of(times(price@, rate), 6);
                    let base = rounded_of(product_of(qty, unit), 2);
                    match (sum_of(Some(subtotal), line), sum_of(Some(goods), base)) {
                        (Some(s), Some(g)) => Ok((s, g)),
                        _ => Err(Refusal::Overflow),
                    }
                },
            },
        }
    }
}

proof fn lemma_billed_stops(lines: Seq<InvoiceLine>, rate: Num, i: nat, n: nat)
    requires
        i <= n,
        billed_to(lines, rate, i) is Err,
    ensures
        billed_to(lines, rate, n) == billed_to(lines, rate, i),
    decreases n,
{
    if i < n {
        lemma_billed_stops(lines, rate, i, (n - 1) as nat);
    }
}

/// The figures of an invoice in base currency.
pub struct Figures {
    pub goods: Num,
    pub charges: Num,
    pub discounts: Num,
    pub payable: Num,
    /// What the converted parts drift from the converted total.
    pub gap: Num,
}

/// The discounts of an invoice: the percentage of the subtotal, and the amount.
pub open spec fn discounts_of(inv: PurchaseInvoice, subtotal: Num) -> Option<Num> {
    let percent = match inv.discount_pct {
        Some(pct) => rounded_of(
            quotient_of(times(subtotal, pct@), Some((100int, 0nat))),
            2,
        ),
        None => Some(zero()),
    };
    sum_of(percent, Some(or_zero(inv.discount_amount)))
}

/// The total of an invoice in its own currency.
pub open spec fn total_of(inv: PurchaseInvoice, subtotal: Num) -> Option<Num> {
    rounded_of(
        sum_of(
            difference_of(Some(subtotal), discounts_of(inv, subtotal)),
            Some(or_zero(inv.other_charges)),
        ),
        2,
    )
}

pub open spec fn in_base(amount: Option<Num>, rate: Num) -> Option<Num> {
    rounded_of(product_of(amount, Some(rate)), 2)
}

/// What the parts of the entry come to, less what is payable.
pub open spec fn gap_of(goods: Num, charges: Num, discounts: Num, payable: Num) -> Option<Num> {
    difference_of(
        difference_of(plus(goods, charges), Some(discounts)),
        Some(payable),
    )
}

/// The figures of an invoice; `None` where one leaves the range.
pub open spec fn figures_of(inv: PurchaseInvoice, subtotal: Num, goods: Num) -> Option<Figures> {
    let rate = inv.exchange_rate@;
    let discounts = in_base(discounts_of(inv, subtotal), rate);
    let charges = in_base(Some(or_zero(inv.other_charges)), rate);
    let payable = in_base(total_of(inv, subtotal), rate);
    match (discounts, charges, payable) {
        (Some(discounts), Some(charges), Some(payable)) => match gap_of(
            goods,
            charges,
            discounts,
            payable,
        ) {
            Some(gap) => Some(Figures { goods, charges, discounts, payable, gap }),
            None => None,
        },
        _ => None,
    }
}

pub open spec fn then_added(
    net: Option<Seq<Net>>,
    role: Seq<char>,
    amount: Num,
    memo: Option<Seq<char>>,
) -> Option<Seq<Net>> {
    match net {
        Some(n) => added(n, role, amount, memo),
        None => None,
    }
}

/// The nets of an invoice: the goods clear what was received, the charges are
/// expensed, the discounts are a variance, the total is payable, and a sub-cent
/// gap is rounding.
pub open spec fn invoice_nets(f: Figures, supplier_no: Seq<char>) -> Option<Seq<Net>> {
    then_added(
        then_added(
            then_added(
                then_added(
                    added(Seq::empty(), keys::GRNI@, f.goods, None),
                    keys::OPEX@,
                    f.charges,
                    Some("Other charges on "@ + supplier_no),
                ),
                keys::PURCHASE_PRICE_VARIANCE@,
                negated(f.discounts),
                Some("Header discount"@),
            ),
            keys::AP@,
            negated(f.payable),
            None,
        ),
        keys::ROUNDING@,
        negated(f.gap),
        None,
    )
}

/// The lines with their sides swapped.
pub open spec fn mirrored(lines: Seq<Booked>) -> Seq<Booked> {
    lines.map_values(
        |l: Booked| Booked { role: l.role, debit: l.credit, credit: l.debit, memo: l.memo },
    )
}

/// The lines of an invoice, or of its cancellation, or why they cannot be
/// booked.
pub open spec fn invoice_lines(
    inv: PurchaseInvoice,
    order: Option<OrderRef>,
    lines: Seq<InvoiceLine>,
    mirror: bool,
) -> Result<Seq<Booked>, Refusal> {
    if inv.order_id is None {
        Err(Refusal::Internal("invoice without an order"@))
    } else if order is None {
        Err(Refusal::Internal("invoice lost its order"@))
    } else {
        match billed_to(lines, inv.exchange_rate@, lines.len()) {
            Err(r) => Err(r),
            Ok((subtotal, goods)) => match figures_of(inv, subtotal, goods) {
                None => Err(Refusal::Overflow),
                Some(f) => match invoice_nets(f, inv.supplier_invoice_no@) {
                    None => Err(Refusal::Overflow),
                    Some(net) => Ok(
                        if mirror {
                            mirrored(finished(net))
                        } else {
                            finished(net)
                        },
                    ),
                },
            },
        }
    }
}

fn amount_or_zero(d: Option<Decimal>) -> (r: Decimal)
    ensures
        r@ == or_zero(d),
{
    match d {
        Some(d) => d,
        None => Decimal::zero(),
    }
}

fn bill(lines: &Vec<InvoiceLine>, rate: Decimal) -> (r: Result<(Decimal, Decimal), Error>)
    ensures
        match billed_to(lines@, rate@, lines@.len()) {
            Ok(sums) => r is Ok && (r->Ok_0).0@ == sums.0 && (r->Ok_0).1@ == sums.1,
            Err(why) => refusal(r) == Some(why),
        },
{
    let mut subtotal = Decimal::zero();
    let mut goods = Decimal::zero();
    let mut i: usize = 0;
    while i < lines.len()
        invariant
            i <= lines.len(),
            billed_to(lines@, rate@, i as nat) == Ok::<(Num, Num), Refusal>((subtotal@, goods@)),
        decreases lines.len() - i,
    {
        let l = lines[i];
        proof {
            if billed_to(lines@, rate@, (i + 1) as nat) is Err {
                lemma_billed_stops(lines@, rate@, (i + 1) as nat, lines@.len());
            }
        }
        let price = match l.order_price {
            Some(p) => p,
            None => {
                return Err(Error::Internal("invoice line lost its order line".to_owned()));
            },
        };
        let line = in_range(l.qty.checked_mul(price))?;
        let unit = in_range(price.checked_mul(rate))?;
        let base = in_range(l.qty.checked_mul(round_cost(unit)))?;
        subtotal = in_range(subtotal.checked_add(round_money(line)))?;
        goods = in_range(goods.checked_add(round_money(base)))?;
        i = i + 1;
    }
    Ok((subtotal, goods))
}

/// The figures of an invoice, computed.
#[derive(Clone, Copy, Debug)]
struct Sums {
    goods: Decimal,
    charges: Decimal,
    discounts: Decimal,
    payable: Decimal,
    gap: Decimal,
}

fn convert(amount: Decimal, rate: Decimal) -> (r: Result<Decimal, Error>)
    ensures
        match in_base(Some(amount@), rate@) {
            Some(b) => r is Ok && r->Ok_0@ == b,
            None => refusal(r) == Some(Refusal::Overflow),
        },
{
    let product = in_range(amount.checked_mul(rate))?;
    Ok(round_money(product))
}

fn compute(inv: &PurchaseInvoice, subtotal: Decimal, goods: Decimal) -> (r: Result<Sums, Error>)
    ensures
        match figures_of(*inv, subtotal@, goods@) {
            Some(f) => r is Ok && r->Ok_0.goods@ == f.goods && r->Ok_0.charges@ == f.charges
                && r->Ok_0.discounts@ == f.discounts && r->Ok_0.payable@ == f.payable
                && r->Ok_0.gap@ == f.gap,
            None => refusal(r) == Some(Refusal::Overflow),
        },
{
    let rate = inv.exchange_rate;
    let percent = match inv.discount_pct {
        Some(pct) => {
            let share = in_range(subtotal.checked_mul(pct))?;
            round_money(in_range(share.checked_div(Decimal::one_hundred()))?)
        },
        None => Decimal::zero(),
    };
    let off = in_range(percent.checked_add(amount_or_zero(inv.discount_amount)))?;
    let discounts = convert(off, rate)?;
    let other = amount_or_zero(inv.other_charges);
    let charges = convert(other, rate)?;
    let less = in_range(subtotal.checked_sub(off))?;
    let total = round_money(in_range(less.checked_add(other))?);
    let payable = convert(total, rate)?;
    let parts = in_range(goods.checked_add(charges))?;
    let rest = in_range(parts.checked_sub(discounts))?;
    let gap = in_range(rest.checked_sub(payable))?;
    Ok(Sums { goods, charges, discounts, payable, gap })
}

fn book_invoice(f: &Sums, supplier_no: &str) -> (r: Result<Vec<GlLine>, Error>)
    ensures
        ({
            let figures = Figures {
                goods: f.goods@,
                charges: f.charges@,
                discounts: f.discounts@,
                payable: f.payable@,
                gap: f.gap@,
            };
            match invoice_nets(figures, supplier_no@) {
                Some(net) => r is Ok && all_booked(r->Ok_0@) == finished(net),
                None => refusal(r) == Some(Refusal::Overflow),
            }
        }),
{
    let on = cat2("Other charges on ", supplier_no);
    let mut entry = EntryBuilder::new();
    if !entry.debit(keys::GRNI, f.goods, None) {
        return Err(Error::Overflow);
    }
    if !entry.debit(keys::OPEX, f.charges, Some(on.as_str())) {
        return Err(Error::Overflow);
    }
    if !entry.credit(keys::PURCHASE_PRICE_VARIANCE, f.discounts, Some("Header discount")) {
        return Err(Error::Overflow);
    }
    if !entry.credit(keys::AP, f.payable, None) {
        return Err(Error::Overflow);
    }
    if !entry.credit(keys::ROUNDING, f.gap, None) {
        return Err(Error::Overflow);
    }
    Ok(entry.lines())
}

fn swap_sides(lines: Vec<GlLine>) -> (r: Vec<GlLine>)
    ensures
        all_booked(r@) == mirrored(all_booked(lines@)),
{
    let mut out: Vec<GlLine> = Vec::new();
    let mut i: usize = 0;
    assert(all_booked(out@) =~= mirrored(all_booked(lines@)).take(0));
    while i < lines.len()
        invariant
            i <= lines.len(),
            all_booked(out@) == mirrored(all_booked(lines@)).take(i as int),
        decreases lines.len() - i,
    {
        let l = &lines[i];
        let line = GlLine {
            account_role: l.account_role.clone(),
            debit: l.credit,
            credit: l.debit,
            memo: l.memo.clone(),
        };
        let ghost before = out@;
        out.push(line);
        assert(all_booked(out@) =~= all_booked(before).push(booked(line)));
        assert(all_booked(out@) =~= mirrored(all_booked(lines@)).take(i + 1));
        i = i + 1;
    }
    assert(mirrored(all_booked(lines@)).take(i as int) =~= mirrored(all_booked(lines@)));
    out
}

pub open spec fn or_text(t: Option<String>, default: Seq<char>) -> Seq<char> {
    match t {
        Some(t) => t@,
        None => default,
    }
}

pub open spec fn invoice_memo(inv: PurchaseInvoice, order: OrderRef, mirror: bool) -> Seq<char> {
    if mirror {
        "Cancellation of purchase invoice "@ + or_text(inv.number, "?"@) + " ("@
            + inv.supplier_invoice_no@ + ")"@
    } else {
        "Purchase invoice "@ + or_text(inv.number, "?"@) + " against "@ + or_text(
            order.number,
            "purchase order"@,
        ) + " ("@ + inv.supplier_invoice_no@ + ")"@
    }
}

/// The entry for posting a purchase invoice, or for cancelling it where
/// `mirror` is set; a cancellation is dated `today`.
pub fn purchase_invoice_request(
    inv: &PurchaseInvoice,
    order: Option<OrderRef>,
    lines: &Vec<InvoiceLine>,
    mirror: bool,
    today: Date,
    tenant_id: Option<u128>,
) -> (r: Result<Option<GlPostingRequested>, Error>)
    ensures
        match invoice_lines(*inv, order, lines@, mirror) {
            Err(why) => refusal(r) == Some(why),
            Ok(booked) => r is Ok && (match r->Ok_0 {
                None => booked.len() == 0,
                Some(req) => {
                    &&& booked.len() > 0
                    &&& all_booked(req.lines@) == booked
                    &&& is_request(
                        req,
                        tenant_id,
                        "scm.invoice:"@ + id_text(inv.id) + ":"@ + (if mirror {
                            "cancel"@
                        } else {
                            "post"@
                        }),
                        if mirror {
                            today
                        } else {
                            inv.invoice_date
                        },
                        invoice_memo(*inv, order->0, mirror),
                    )
                },
            }),
        },
{
    if inv.order_id.is_none() {
        return Err(Error::Internal("invoice without an order".to_owned()));
    }
    let order = match order {
        Some(o) => o,
        None => {
            return Err(Error::Internal("invoice lost its order".to_owned()));
        },
    };
    let (subtotal, goods) = bill(lines, inv.exchange_rate)?;
    let figures = compute(inv, subtotal, goods)?;
    let mut out = book_invoice(&figures, inv.supplier_invoice_no.as_str())?;
    assert(all_booked(out@).len() == out@.len());
    if out.len() == 0 {
        assert(mirrored(all_booked(out@)).len() == 0);
        return Ok(None);
    }
    if mirror {
        out = swap_sides(out);
    }
    let number = match &inv.number {
        Some(n) => n.as_str(),
        None => "?",
    };
    let against = match &order.number {
        Some(n) => n.as_str(),
        None => "purchase order",
    };
    let memo = if mirror {
        cat5(
            "Cancellation of purchase invoice ",
            number,
            " (",
            inv.supplier_invoice_no.as_str(),
            ")",
        )
    } else {
        cat7(
            "Purchase invoice ",
            number,
            " against ",
            against,
            " (",
            inv.supplier_invoice_no.as_str(),
            ")",
        )
    };
    let id = show_id(inv.id);
    let action = if mirror {
        "cancel"
    } else {
        "post"
    };
    Ok(
        Some(
            GlPostingRequested {
                tenant_id,
                source: cat4("scm.invoice:", id.as_str(), ":", action),
                entry_date: if mirror {
                    today
                } else {
                    inv.invoice_date
                },
                memo,
                currency: None,
                lines: out,
            },
        ),
    )
}

// ---------------------------------------------------------------------------
// Laws
// ---------------------------------------------------------------------------

/// An amount in whole cents, with at most six decimal places.
pub open spec fn in_cents(n: Num) -> bool {
    n.1 <= kept_places() && worth(n) % pow10(26) == 0
}

proof fn lemma_cents_round_to_themselves(n: Num)
    requires
        in_cents(n),
    ensures
        worth(money(n)) == worth(n),
{
    if n.1 > 2 {
        let f = pow10((max_places() - n.1) as nat);
        let unit = pow10((n.1 - 2) as nat);
        let u = pow10(26);
        lemma_pow10_adds((n.1 - 2) as nat, (max_places() - n.1) as nat);
        lemma_pow10_positive((max_places() - n.1) as nat);
        lemma_pow10_positive((n.1 - 2) as nat);
        lemma_pow10_positive(26);
        let k = worth(n) / u;
        assert(worth(n) == u * k) by (nonlinear_arith)
            requires
                worth(n) % u == 0,
                k == worth(n) / u,
                u >= 1,
        ;
        assert(n.0 == unit * k) by (nonlinear_arith)
            requires
                n.0 * f == (unit * f) * k,
                f >= 1,
        ;
        let m = abs(n.0);
        let q = if n.0 < 0 { -k } else { k };
        assert(-(unit * k) == unit * (-k)) by (nonlinear_arith);
        assert(m / unit == q && m % unit == 0) by (nonlinear_arith)
            requires
                m == unit * q,
                unit >= 1,
        ;
        assert(half_even(m, unit) == q);
        assert(money(n).0 == k);
        assert(k * u == u * k) by (nonlinear_arith);
    }
}

pub(crate) proof fn lemma_multiples_add(x: int, y: int, u: int)
    requires
        u >= 1,
        x % u == 0,
        y % u == 0,
    ensures
        (x + y) % u == 0,
{
    let a = x / u;
    let b = y / u;
    vstd::arithmetic::div_mod::lemma_fundamental_div_mod(x, u);
    vstd::arithmetic::div_mod::lemma_fundamental_div_mod(y, u);
    assert(x + y == (a + b) * u) by (nonlinear_arith)
        requires
            x == u * a,
            y == u * b,
    ;
    vstd::arithmetic::div_mod::lemma_mod_multiples_basic(a + b, u);
}

pub(crate) proof fn lemma_multiple_negated(x: int, u: int)
    requires
        u >= 1,
        x % u == 0,
    ensures
        (-x) % u == 0,
{
    let a = x / u;
    vstd::arithmetic::div_mod::lemma_fundamental_div_mod(x, u);
    assert(-x == (-a) * u) by (nonlinear_arith)
        requires
            x == u * a,
    ;
    vstd::arithmetic::div_mod::lemma_mod_multiples_basic(-a, u);
}

pub(crate) proof fn lemma_two_places_are_cents(n: Num)
    requires
        n.1 <= 2,
    ensures
        in_cents(n),
{
    let g = pow10((2 - n.1) as nat);
    let u = pow10(26);
    lemma_pow10_adds((2 - n.1) as nat, 26);
    lemma_pow10_positive(26);
    assert(n.0 * (g * u) == (n.0 * g) * u) by (nonlinear_arith);
    let k = n.0 * g;
    assert((k * u) % u == 0) by (nonlinear_arith)
        requires
            u >= 1,
    ;
}

/// What the first `n` nets are worth together.
pub open spec fn net_sum_to(net: Seq<Net>, n: nat) -> int
    decreases n,
{
    if n == 0 {
        0
    } else {
        net_sum_to(net, (n - 1) as nat) + worth(net[n - 1].amount)
    }
}

/// What nets are worth together.
pub open spec fn net_sum(net: Seq<Net>) -> int {
    net_sum_to(net, net.len())
}

pub(crate) open spec fn net_mass_to(net: Seq<Net>, n: nat) -> int
    decreases n,
{
    if n == 0 {
        0
    } else {
        net_mass_to(net, (n - 1) as nat) + size(net[n - 1].amount)
    }
}

/// The magnitude of an amount, counted in its sixth decimal place.
pub open spec fn size(n: Num) -> int {
    abs(rescaled(n, kept_places()))
}

/// What the first `n` lines debit, less what they credit.
pub open spec fn imbalance_to(lines: Seq<Booked>, n: nat) -> int
    decreases n,
{
    if n == 0 {
        0
    } else {
        imbalance_to(lines, (n - 1) as nat) + worth(lines[n - 1].debit) - worth(
            lines[n - 1].credit,
        )
    }
}

/// What lines debit, less what they credit.
pub open spec fn imbalance(lines: Seq<Booked>) -> int {
    imbalance_to(lines, lines.len())
}

pub(crate) open spec fn all_cents(net: Seq<Net>) -> bool {
    forall|i: int| 0 <= i < net.len() ==> in_cents((#[trigger] net[i]).amount)
}

pub(crate) proof fn lemma_sums_agree(a: Seq<Net>, b: Seq<Net>, n: nat)
    requires
        n <= a.len(),
        n <= b.len(),
        forall|i: int| 0 <= i < n ==> (#[trigger] a[i]).amount == b[i].amount,
    ensures
        net_sum_to(a, n) == net_sum_to(b, n),
        net_mass_to(a, n) == net_mass_to(b, n),
    decreases n,
{
    if n > 0 {
        lemma_sums_agree(a, b, (n - 1) as nat);
        assert(a[n - 1].amount == b[n - 1].amount);
    }
}

pub(crate) proof fn lemma_sums_update(net: Seq<Net>, i: int, new: Net, n: nat)
    requires
        0 <= i < net.len(),
        n <= net.len(),
    ensures
        net_sum_to(net.update(i, new), n) == net_sum_to(net, n) + if i < n {
            worth(new.amount) - worth(net[i].amount)
        } else {
            0
        },
        net_mass_to(net.update(i, new), n) == net_mass_to(net, n) + if i < n {
            size(new.amount) - size(net[i].amount)
        } else {
            0
        },
    decreases n,
{
    if n > 0 {
        lemma_sums_update(net, i, new, (n - 1) as nat);
    }
}

proof fn lemma_mass_bounds(net: Seq<Net>, i: int, n: nat)
    requires
        0 <= i < n <= net.len(),
    ensures
        0 <= size(net[i].amount) <= net_mass_to(net, n),
    decreases n,
{
    lemma_mass_not_negative(net, (n - 1) as nat);
    if i < n - 1 {
        lemma_mass_bounds(net, i, (n - 1) as nat);
    }
}

proof fn lemma_mass_not_negative(net: Seq<Net>, n: nat)
    ensures
        0 <= net_mass_to(net, n),
    decreases n,
{
    if n > 0 {
        lemma_mass_not_negative(net, (n - 1) as nat);
    }
}

/// Adding an amount in cents to nets in cents is exact.
pub(crate) proof fn lemma_added(net: Seq<Net>, role: Seq<char>, amount: Num, memo: Option<Seq<char>>)
    requires
        all_cents(net),
        in_cents(amount),
        net_mass_to(net, net.len()) + size(amount) < limit(),
    ensures
        added(net, role, amount, memo) is Some,
        all_cents(added(net, role, amount, memo)->0),
        net_sum(added(net, role, amount, memo)->0) == net_sum(net) + worth(amount),
        net_mass_to(
            added(net, role, amount, memo)->0,
            added(net, role, amount, memo)->0.len(),
        ) <= net_mass_to(net, net.len()) + size(amount),
{
    lemma_worth_sign(amount);
    if amount.0 == 0 {
        lemma_mass_not_negative(net, net.len());
    } else {
        lemma_first_from(net, with_role(role), 0);
        match first_from(net, with_role(role), 0) {
            Some(i) => {
                let p = kept_places();
                let a = net[i].amount;
                lemma_mass_bounds(net, i, net.len());
                lemma_combined_exact(a, amount, 1, p, size(a), size(amount));
                let sum = plus(a, amount)->0;
                lemma_sums_update(net, i, Net { amount: sum, ..net[i] }, net.len());
                let u = pow10(26);
                lemma_pow10_positive(26);
                let x = worth(a);
                let y = worth(amount);
                lemma_multiples_add(x, y, u);
            },
            None => {
                let next = net.push(Net { role, amount, memo });
                lemma_sums_agree(next, net, net.len());
            },
        }
    }
}

pub(crate) proof fn lemma_negated_cents(n: Num)
    requires
        in_cents(n),
    ensures
        in_cents(negated(n)),
        size(negated(n)) == size(n),
        worth(negated(n)) == -worth(n),
{
    lemma_worth_negated(n);
    let u = pow10(26);
    lemma_pow10_positive(26);
    let x = worth(n);
    lemma_multiple_negated(x, u);
    let f = pow10((kept_places() - n.1) as nat);
    assert((-n.0) * f == -(n.0 * f)) by (nonlinear_arith);
}

pub(crate) proof fn lemma_finished_imbalance(net: Seq<Net>, n: nat)
    requires
        all_cents(net),
        n <= net.len(),
    ensures
        imbalance(finished_to(net, n)) == net_sum_to(net, n),
    decreases n,
{
    if n > 0 {
        lemma_finished_imbalance(net, (n - 1) as nat);
        let rest = finished_to(net, (n - 1) as nat);
        let amount = net[n - 1].amount;
        lemma_worth_sign(amount);
        lemma_worth_sign(zero());
        if amount.0 != 0 {
            let all = rest.push(line_of(net[n - 1]));
            lemma_imbalance_prefix(all, rest, rest.len());
            lemma_negated_cents(amount);
            lemma_cents_round_to_themselves(amount);
            lemma_cents_round_to_themselves(negated(amount));
        }
    }
}

pub(crate) proof fn lemma_imbalance_prefix(a: Seq<Booked>, b: Seq<Booked>, n: nat)
    requires
        n <= a.len(),
        n <= b.len(),
        forall|i: int| 0 <= i < n ==> a[i] == b[i],
    ensures
        imbalance_to(a, n) == imbalance_to(b, n),
    decreases n,
{
    if n > 0 {
        lemma_imbalance_prefix(a, b, (n - 1) as nat);
    }
}

/// The values of the first `n` rows in magnitude, each counted twice.
pub open spec fn row_mass_to(rows: Seq<LedgerRow>, n: nat) -> int
    decreases n,
{
    if n == 0 {
        0
    } else {
        row_mass_to(rows, (n - 1) as nat) + 2 * size(rows[n - 1].value_delta@)
    }
}

/// Rows whose values are in cents and not astronomically large.
pub open spec fn bookable(rows: Seq<LedgerRow>) -> bool {
    &&& forall|i: int| 0 <= i < rows.len() ==> in_cents((#[trigger] rows[i]).value_delta@)
    &&& row_mass_to(rows, rows.len()) < limit()
}

proof fn lemma_row_mass_grows(rows: Seq<LedgerRow>, i: nat, n: nat)
    requires
        i <= n,
    ensures
        row_mass_to(rows, i) <= row_mass_to(rows, n),
    decreases n,
{
    if i < n {
        lemma_row_mass_grows(rows, i, (n - 1) as nat);
    }
}

proof fn lemma_moved_balances(
    rows: Seq<LedgerRow>,
    items: Seq<Item>,
    categories: Seq<Category>,
    contra: Contra,
    n: nat,
)
    requires
        bookable(rows),
        n <= rows.len(),
    ensures
        match moved_to(rows, items, categories, contra, n) {
            Ok(net) => all_cents(net) && net_sum(net) == 0 && net_mass_to(net, net.len())
                <= row_mass_to(rows, n),
            Err(r) => r == Refusal::Internal("ledger row without an item"@),
        },
    decreases n,
{
    if n > 0 {
        lemma_moved_balances(rows, items, categories, contra, (n - 1) as nat);
        lemma_row_mass_grows(rows, n, rows.len());
        if let Ok(net) = moved_to(rows, items, categories, contra, (n - 1) as nat) {
            if let Some(roles) = roles_of(items, categories, rows[n - 1].item_id) {
                let value = rows[n - 1].value_delta@;
                lemma_added(net, roles.inventory, value, None);
                lemma_negated_cents(value);
                let half = added(net, roles.inventory, value, None)->0;
                lemma_added(half, contra_role(contra, roles), negated(value), None);
            }
        }
    }
}

/// The entry of a movement balances by construction: what it debits is worth
/// exactly what it credits. It is refused only where a row's item is gone.
pub proof fn movement_entries_balance(
    rows: Seq<LedgerRow>,
    items: Seq<Item>,
    categories: Seq<Category>,
    contra: Contra,
)
    requires
        bookable(rows),
    ensures
        match movement_lines(rows, items, categories, contra) {
            Ok(lines) => imbalance(lines) == 0,
            Err(r) => r == Refusal::Internal("ledger row without an item"@),
        },
{
    lemma_moved_balances(rows, items, categories, contra, rows.len());
    if let Ok(net) = moved_to(rows, items, categories, contra, rows.len()) {
        lemma_finished_imbalance(net, net.len());
    }
}

/// What the first `n` billed lines come to in base, in magnitude.
pub open spec fn billed_mass_to(lines: Seq<InvoiceLine>, rate: Num, n: nat) -> int
    decreases n,
{
    if n == 0 {
        0
    } else {
        billed_mass_to(lines, rate, (n - 1) as nat) + match lines[n - 1].order_price {
            Some(price) => match rounded_of(
                product_of(
                    Some(lines[n - 1].qty@),
                    rounded_of(times(price@, rate), 6),
                ),
                2,
            ) {
                Some(base) => size(base),
                None => 0,
            },
            None => 0,
        }
    }
}

proof fn lemma_billed_mass_grows(lines: Seq<InvoiceLine>, rate: Num, i: nat, n: nat)
    requires
        i <= n,
    ensures
        0 <= billed_mass_to(lines, rate, i) <= billed_mass_to(lines, rate, n),
    decreases n,
{
    if i < n {
        lemma_billed_mass_grows(lines, rate, i, (n - 1) as nat);
    } else if n > 0 {
        lemma_billed_mass_grows(lines, rate, (n - 1) as nat, (n - 1) as nat);
    }
}

proof fn lemma_goods_exact(lines: Seq<InvoiceLine>, rate: Num, n: nat)
    requires
        n <= lines.len(),
        billed_mass_to(lines, rate, lines.len()) < limit(),
        billed_to(lines, rate, n) is Ok,
    ensures
        (billed_to(lines, rate, n)->Ok_0).1.1 <= 2,
        within(
            (billed_to(lines, rate, n)->Ok_0).1,
            kept_places(),
            billed_mass_to(lines, rate, n),
        ),
    decreases n,
{
    let p = kept_places();
    if n == 0 {
        lemma_zero(p);
    } else {
        lemma_goods_exact(lines, rate, (n - 1) as nat);
        lemma_billed_mass_grows(lines, rate, n, lines.len());
        let goods = (billed_to(lines, rate, (n - 1) as nat)->Ok_0).1;
        let price = lines[n - 1].order_price->0;
        let base = rounded_of(
            product_of(Some(lines[n - 1].qty@), rounded_of(times(price@, rate), 6)),
            2,
        )->0;
        lemma_combined_exact(
            goods,
            base,
            1,
            p,
            billed_mass_to(lines, rate, (n - 1) as nat),
            size(base),
        );
    }
}

/// Figures that are not astronomically large.
pub open spec fn small(f: Figures) -> bool {
    8 * (size(f.goods) + size(f.charges) + size(f.discounts) + size(f.payable)) < limit()
}

/// The entry of an invoice balances, whatever the rate, the discounts and the
/// charges are: the rounding line absorbs what the converted parts drift from
/// the converted total. So does the entry of its cancellation.
pub proof fn invoice_entries_balance(
    inv: PurchaseInvoice,
    order: Option<OrderRef>,
    lines: Seq<InvoiceLine>,
    mirror: bool,
)
    requires
        invoice_lines(inv, order, lines, mirror) is Ok,
        billed_mass_to(lines, inv.exchange_rate@, lines.len()) < limit(),
        ({
            let sums = billed_to(lines, inv.exchange_rate@, lines.len())->Ok_0;
            small(figures_of(inv, sums.0, sums.1)->0)
        }),
    ensures
        imbalance(invoice_lines(inv, order, lines, mirror)->Ok_0) == 0,
{
    let p = kept_places();
    let (subtotal, goods) = billed_to(lines, inv.exchange_rate@, lines.len())->Ok_0;
    let f = figures_of(inv, subtotal, goods)->0;
    lemma_goods_exact(lines, inv.exchange_rate@, lines.len());
    lemma_two_places_are_cents(f.goods);
    lemma_two_places_are_cents(f.charges);
    lemma_two_places_are_cents(f.discounts);
    lemma_two_places_are_cents(f.payable);
    lemma_combined_exact(f.goods, f.charges, 1, p, size(f.goods), size(f.charges));
    let parts = plus(f.goods, f.charges)->0;
    lemma_combined_exact(
        parts,
        f.discounts,
        -1,
        p,
        size(f.goods) + size(f.charges),
        size(f.discounts),
    );
    let rest = minus(parts, f.discounts)->0;
    lemma_combined_exact(
        rest,
        f.payable,
        -1,
        p,
        size(f.goods) + size(f.charges) + size(f.discounts),
        size(f.payable),
    );
    lemma_two_places_are_cents(f.gap);
    lemma_negated_cents(f.discounts);
    lemma_negated_cents(f.payable);
    lemma_negated_cents(f.gap);
    let none = Seq::<Net>::empty();
    let on = Some("Other charges on "@ + inv.supplier_invoice_no@);
    lemma_added(none, keys::GRNI@, f.goods, None);
    let n1 = added(none, keys::GRNI@, f.goods, None)->0;
    lemma_added(n1, keys::OPEX@, f.charges, on);
    let n2 = added(n1, keys::OPEX@, f.charges, on)->0;
    let hd = Some("Header discount"@);
    lemma_added(n2, keys::PURCHASE_PRICE_VARIANCE@, negated(f.discounts), hd);
    let n3 = added(n2, keys::PURCHASE_PRICE_VARIANCE@, negated(f.discounts), hd)->0;
    lemma_added(n3, keys::AP@, negated(f.payable), None);
    let n4 = added(n3, keys::AP@, negated(f.payable), None)->0;
    lemma_added(n4, keys::ROUNDING@, negated(f.gap), None);
    let n5 = added(n4, keys::ROUNDING@, negated(f.gap), None)->0;
    assert(invoice_nets(f, inv.supplier_invoice_no@) == Some(n5));
    lemma_finished_imbalance(n5, n5.len());
    lemma_mirror_imbalance(finished(n5), finished(n5).len());
}

proof fn lemma_mirror_imbalance(lines: Seq<Booked>, n: nat)
    requires
        n <= lines.len(),
    ensures
        imbalance_to(mirrored(lines), n) == -imbalance_to(lines, n),
    decreases n,
{
    if n > 0 {
        lemma_mirror_imbalance(lines, (n - 1) as nat);
    }
}

/// What the first `n` lines add to a role: debits less credits.
pub open spec fn role_effect_to(lines: Seq<Booked>, role: Seq<char>, n: nat) -> int
    decreases n,
{
    if n == 0 {
        0
    } else {
        role_effect_to(lines, role, (n - 1) as nat) + if lines[n - 1].role == role {
            worth(lines[n - 1].debit) - worth(lines[n - 1].credit)
        } else {
            0
        }
    }
}

proof fn lemma_mirror_effect(lines: Seq<Booked>, role: Seq<char>, n: nat)
    requires
        n <= lines.len(),
    ensures
        role_effect_to(mirrored(lines), role, n) == -role_effect_to(lines, role, n),
    decreases n,
{
    if n > 0 {
        lemma_mirror_effect(lines, role, (n - 1) as nat);
    }
}

pub(crate) open spec fn role_net_to(net: Seq<Net>, role: Seq<char>, n: nat) -> int
    decreases n,
{
    if n == 0 {
        0
    } else {
        role_net_to(net, role, (n - 1) as nat) + if net[n - 1].role == role {
            worth(net[n - 1].amount)
        } else {
            0
        }
    }
}

proof fn lemma_role_update(net: Seq<Net>, i: int, new: Net, role: Seq<char>, n: nat)
    requires
        0 <= i < net.len(),
        n <= net.len(),
        new.role == net[i].role,
    ensures
        role_net_to(net.update(i, new), role, n) == role_net_to(net, role, n) + if i < n
            && new.role == role {
            worth(new.amount) - worth(net[i].amount)
        } else {
            0
        },
    decreases n,
{
    if n > 0 {
        lemma_role_update(net, i, new, role, (n - 1) as nat);
    }
}

proof fn lemma_role_prefix(a: Seq<Net>, b: Seq<Net>, role: Seq<char>, n: nat)
    requires
        n <= a.len(),
        n <= b.len(),
        forall|i: int| 0 <= i < n ==> a[i] == b[i],
    ensures
        role_net_to(a, role, n) == role_net_to(b, role, n),
    decreases n,
{
    if n > 0 {
        lemma_role_prefix(a, b, role, (n - 1) as nat);
    }
}

pub(crate) proof fn lemma_role_added(
    net: Seq<Net>,
    role: Seq<char>,
    amount: Num,
    memo: Option<Seq<char>>,
    other: Seq<char>,
)
    requires
        all_cents(net),
        in_cents(amount),
        net_mass_to(net, net.len()) + size(amount) < limit(),
    ensures
        added(net, role, amount, memo) is Some,
        ({
            let after = added(net, role, amount, memo)->0;
            role_net_to(after, other, after.len()) == role_net_to(net, other, net.len()) + if role
                == other {
                worth(amount)
            } else {
                0
            }
        }),
{
    lemma_added(net, role, amount, memo);
    lemma_worth_sign(amount);
    if amount.0 != 0 {
        lemma_first_from(net, with_role(role), 0);
        match first_from(net, with_role(role), 0) {
            Some(i) => {
                let p = kept_places();
                let a = net[i].amount;
                lemma_mass_bounds(net, i, net.len());
                lemma_combined_exact(a, amount, 1, p, size(a), size(amount));
                let sum = plus(a, amount)->0;
                lemma_role_update(net, i, Net { amount: sum, ..net[i] }, other, net.len());
            },
            None => {
                let next = net.push(Net { role, amount, memo });
                lemma_role_prefix(next, net, other, net.len());
            },
        }
    }
}

proof fn lemma_effect_prefix(a: Seq<Booked>, b: Seq<Booked>, role: Seq<char>, n: nat)
    requires
        n <= a.len(),
        n <= b.len(),
        forall|i: int| 0 <= i < n ==> a[i] == b[i],
    ensures
        role_effect_to(a, role, n) == role_effect_to(b, role, n),
    decreases n,
{
    if n > 0 {
        lemma_effect_prefix(a, b, role, (n - 1) as nat);
    }
}

pub(crate) proof fn lemma_finished_role(net: Seq<Net>, role: Seq<char>, n: nat)
    requires
        all_cents(net),
        n <= net.len(),
    ensures
        role_effect_to(finished_to(net, n), role, finished_to(net, n).len()) == role_net_to(
            net,
            role,
            n,
        ),
    decreases n,
{
    if n > 0 {
        lemma_finished_role(net, role, (n - 1) as nat);
        let rest = finished_to(net, (n - 1) as nat);
        let amount = net[n - 1].amount;
        lemma_worth_sign(amount);
        lemma_worth_sign(zero());
        if amount.0 != 0 {
            let all = rest.push(line_of(net[n - 1]));
            lemma_effect_prefix(all, rest, role, rest.len());
            lemma_negated_cents(amount);
            lemma_cents_round_to_themselves(amount);
            lemma_cents_round_to_themselves(negated(amount));
        }
    }
}

/// What the first `n` rows mean for a role: a row's value comes to the role
/// that carries its item's stock, and goes from the one on the other side.
pub open spec fn meant_to(
    rows: Seq<LedgerRow>,
    items: Seq<Item>,
    categories: Seq<Category>,
    contra: Contra,
    role: Seq<char>,
    n: nat,
) -> int
    decreases n,
{
    if n == 0 {
        0
    } else {
        let roles = roles_of(items, categories, rows[n - 1].item_id)->0;
        let value = worth(rows[n - 1].value_delta@);
        meant_to(rows, items, categories, contra, role, (n - 1) as nat) + (if roles.inventory
            == role {
            value
        } else {
            0
        }) - (if contra_role(contra, roles) == role {
            value
        } else {
            0
        })
    }
}

proof fn lemma_moved_role(
    rows: Seq<LedgerRow>,
    items: Seq<Item>,
    categories: Seq<Category>,
    contra: Contra,
    role: Seq<char>,
    n: nat,
)
    requires
        bookable(rows),
        n <= rows.len(),
        moved_to(rows, items, categories, contra, n) is Ok,
    ensures
        ({
            let net = moved_to(rows, items, categories, contra, n)->Ok_0;
            role_net_to(net, role, net.len()) == meant_to(
                rows,
                items,
                categories,
                contra,
                role,
                n,
            )
        }),
    decreases n,
{
    if n > 0 {
        lemma_moved_role(rows, items, categories, contra, role, (n - 1) as nat);
        lemma_moved_balances(rows, items, categories, contra, (n - 1) as nat);
        lemma_row_mass_grows(rows, n, rows.len());
        let net = moved_to(rows, items, categories, contra, (n - 1) as nat)->Ok_0;
        let roles = roles_of(items, categories, rows[n - 1].item_id)->0;
        let value = rows[n - 1].value_delta@;
        lemma_added(net, roles.inventory, value, None);
        lemma_role_added(net, roles.inventory, value, None, role);
        lemma_negated_cents(value);
        let half = added(net, roles.inventory, value, None)->0;
        lemma_role_added(half, contra_role(contra, roles), negated(value), None, role);
    }
}

/// The books mirror the stock ledger: the entry of a movement adds to each role
/// exactly the values that the ledger's rows mean for it.
pub proof fn the_books_mirror_the_ledger(
    rows: Seq<LedgerRow>,
    items: Seq<Item>,
    categories: Seq<Category>,
    contra: Contra,
    role: Seq<char>,
)
    requires
        bookable(rows),
        movement_lines(rows, items, categories, contra) is Ok,
    ensures
        ({
            let lines = movement_lines(rows, items, categories, contra)->Ok_0;
            role_effect_to(lines, role, lines.len()) == meant_to(
                rows,
                items,
                categories,
                contra,
                role,
                rows.len(),
            )
        }),
{
    lemma_moved_balances(rows, items, categories, contra, rows.len());
    lemma_moved_role(rows, items, categories, contra, role, rows.len());
    let net = moved_to(rows, items, categories, contra, rows.len())->Ok_0;
    lemma_finished_role(net, role, net.len());
}

/// Cancelling an invoice undoes what posting it booked, role by role.
pub proof fn cancelling_undoes_posting(
    inv: PurchaseInvoice,
    order: Option<OrderRef>,
    lines: Seq<InvoiceLine>,
    role: Seq<char>,
)
    requires
        invoice_lines(inv, order, lines, false) is Ok,
    ensures
        invoice_lines(inv, order, lines, true) is Ok,
        ({
            let posted = invoice_lines(inv, order, lines, false)->Ok_0;
            let cancelled = invoice_lines(inv, order, lines, true)->Ok_0;
            &&& posted.len() == cancelled.len()
            &&& role_effect_to(posted, role, posted.len()) + role_effect_to(
                cancelled,
                role,
                cancelled.len(),
            ) == 0
        }),
{
    let posted = invoice_lines(inv, order, lines, false)->Ok_0;
    lemma_mirror_effect(posted, role, posted.len());
}

/// The mirror of a mirror is the entry itself.
pub proof fn mirroring_twice(lines: Seq<Booked>)
    ensures
        mirrored(mirrored(lines)) == lines,
{
    assert(mirrored(mirrored(lines)) =~= lines);
}

/// Whether a role is the nearest that is named: the item's own, else its category's, else
/// the default.
pub open spec fn is_nearest(
    role: Seq<char>,
    own: Option<Seq<char>>,
    category: Option<Seq<char>>,
    default: Seq<char>,
) -> bool {
    &&& own matches Some(r) ==> role == r
    &&& own is None ==> (category matches Some(r) ==> role == r)
    &&& own is None && category is None ==> role == default
}

/// An item is booked to the nearest roles that are named: its own, else those of its
/// category, else the defaults; and so for the stock itself, for the cost of what is
/// sold, and for what is counted up or down, each by itself. Items and categories are
/// known by their ids.
pub proof fn items_are_booked_to_the_nearest_roles(
    items: Seq<Item>,
    categories: Seq<Category>,
    k: int,
    c: int,
)
    requires
        0 <= k < items.len(),
        forall|j: int| 0 <= j < items.len() && j != k ==> (#[trigger] items[j]).id != items[k].id,
        items[k].category_id matches Some(id) ==> 0 <= c < categories.len() && categories[c].id
            == id && forall|j: int|
            0 <= j < categories.len() && j != c ==> (#[trigger] categories[j]).id != id,
    ensures
        roles_of(items, categories, items[k].id) matches Some(roles) && ({
            let item = items[k];
            let of = |f: spec_fn(Category) -> Option<Seq<char>>|
                if item.category_id is Some {
                    f(categories[c])
                } else {
                    None
                };
            &&& is_nearest(
                roles.inventory,
                opt_text(item.inventory_account_role),
                of(|x: Category| opt_text(x.inventory_account_role)),
                keys::INVENTORY@,
            )
            &&& is_nearest(
                roles.cogs,
                opt_text(item.cogs_account_role),
                of(|x: Category| opt_text(x.cogs_account_role)),
                keys::COGS@,
            )
            &&& is_nearest(
                roles.adjustment,
                opt_text(item.adjustment_account_role),
                of(|x: Category| opt_text(x.adjustment_account_role)),
                keys::STOCK_ADJUSTMENT@,
            )
        }),
{
    lemma_first_from(items, item_id(items[k].id), 0);
    assert(item_id(items[k].id)(items[k]));
    if let Some(id) = items[k].category_id {
        lemma_first_from(categories, category_id(id), 0);
        assert(category_id(id)(categories[c]));
    }
}

/// The other side of a movement is the cost of what was sold where stock is issued, and
/// what was counted up or down otherwise; goods that are received against an order
/// are owed for until they are billed. A transfer, and a movement that another document
/// generated, books nothing by itself.
pub proof fn movements_have_their_other_side(doc: MoveDoc, roles: Roles)
    ensures
        doc.move_type == MoveType::Issue ==> contra_role(move_contra(doc.move_type), roles)
            == roles.cogs,
        doc.move_type == MoveType::Receipt || doc.move_type == MoveType::Adjustment ==> contra_role(
            move_contra(doc.move_type),
            roles,
        ) == roles.adjustment,
        contra_role(Contra::Grni, roles) == keys::GRNI@,
        doc.source is Some ==> books_nothing(doc),
        doc.move_type == MoveType::Transfer ==> books_nothing(doc),
        doc.source is None && doc.move_type != MoveType::Transfer ==> !books_nothing(doc),
{
}

} // verus!
