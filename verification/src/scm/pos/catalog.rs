//! The catalog that a till caches: what it can sell, at what price, and what
//! stands on the shelf.

use super::pricing::{
    buyer, list_price, opt_source, register_list_price, resolve_customer, Customer, PriceSource,
    Quote, Source,
};
use super::register::{find_register, no_register, register_id, Model as Register};
use super::sale::{find_rate, line_price, rate_of, sellable_refusal, SaleLineInput, Shop};
use crate::date::{opt_day, Date, Day};
use crate::decimal::{worth, zero, Decimal, Num};
use crate::error::{refusal, Error, Refusal};
use crate::scm::inventory::item::{find_uom_by_id, item_id, uom_id, Item};
use crate::scm::inventory::batch::{batch_on_hand, goes_out_first, leaves_first, lot_on_hand, Batch};
use crate::scm::inventory::stock::{LedgerRow, Level};
use crate::search::{any, find, first_where, kept_to, lemma_first_from, lemma_kept_at};
use crate::text::{before, id_text, opt_text, sorts_before};
use crate::sort::{arrange, arranged, Ordered};
use vstd::prelude::*;

verus! {

/// A lot with stock in the register's warehouse.
#[derive(Debug)]
pub struct CatalogBatch {
    pub id: u128,
    pub batch_no: String,
    pub expires_on: Option<Date>,
    pub on_hand: Decimal,
}

/// What is left of a lot of an item in the register's warehouse.
#[derive(Debug)]
pub struct LotStock {
    pub item_id: u128,
    pub batch_id: u128,
    pub batch_no: String,
    pub expires_on: Option<Date>,
    pub on_hand: Decimal,
}

/// Those of the first `n` lots of which a warehouse holds some, each with how
/// much. Nothing where a quantity leaves the range.
pub open spec fn stocked_to(
    batches: Seq<Batch>,
    rows: Seq<LedgerRow>,
    warehouse: u128,
    n: nat,
) -> Option<Seq<(Batch, Num)>>
    decreases n,
{
    if n == 0 {
        Some(Seq::empty())
    } else {
        let b = batches[n - 1];
        match stocked_to(batches, rows, warehouse, (n - 1) as nat) {
            None => None,
            Some(rest) => match lot_on_hand(rows, b.item_id, Some(warehouse), b.id) {
                None => None,
                Some(q) => if q.0 > 0 {
                    Some(rest.push((b, q)))
                } else {
                    Some(rest)
                },
            },
        }
    }
}

proof fn lemma_stocked_stops(
    batches: Seq<Batch>,
    rows: Seq<LedgerRow>,
    warehouse: u128,
    i: nat,
    n: nat,
)
    requires
        i <= n,
        stocked_to(batches, rows, warehouse, i) is None,
    ensures
        stocked_to(batches, rows, warehouse, n) is None,
    decreases n,
{
    if i < n {
        lemma_stocked_stops(batches, rows, warehouse, i, (n - 1) as nat);
    }
}

pub open spec fn is_stock_of(l: LotStock, lot: (Batch, Num)) -> bool {
    &&& l.item_id == lot.0.item_id
    &&& l.batch_id == lot.0.id
    &&& l.batch_no@ == lot.0.batch_no@
    &&& l.expires_on == lot.0.expires_on
    &&& l.on_hand@ == lot.1
}

pub open spec fn are_stock_of(list: Seq<LotStock>, lots: Seq<(Batch, Num)>) -> bool {
    &&& list.len() == lots.len()
    &&& forall|i: int| 0 <= i < list.len() ==> is_stock_of(#[trigger] list[i], lots[i])
}

impl Ordered for LotStock {
    /// What expires first stands first, so that the till suggests it.
    open spec fn precedes(a: Self, b: Self) -> bool {
        leaves_first(opt_day(a.expires_on), a.batch_no@, opt_day(b.expires_on), b.batch_no@)
    }

    fn goes_before(&self, other: &Self) -> (r: bool) {
        goes_out_first(
            &self.expires_on,
            self.batch_no.as_str(),
            &other.expires_on,
            other.batch_no.as_str(),
        )
    }
}

/// The lots of which a warehouse holds some, by its stock ledger: what expires
/// first stands first.
pub fn lots_on_hand(batches: &Vec<Batch>, rows: &Vec<LedgerRow>, warehouse: u128) -> (r: Result<
    Vec<LotStock>,
    Error,
>)
    ensures
        match stocked_to(batches@, rows@, warehouse, batches@.len()) {
            Some(lots) => r is Ok && exists|list: Seq<LotStock>|
                #[trigger] are_stock_of(list, lots) && r->Ok_0@ == arranged(list),
            None => refusal(r) == Some(Refusal::Overflow),
        },
{
    let mut out: Vec<LotStock> = Vec::new();
    let mut i: usize = 0;
    while i < batches.len()
        invariant
            i <= batches.len(),
            stocked_to(batches@, rows@, warehouse, i as nat) matches Some(lots) && are_stock_of(
                out@,
                lots,
            ),
        decreases batches.len() - i,
    {
        let b = &batches[i];
        proof {
            let n = (i + 1) as nat;
            if stocked_to(batches@, rows@, warehouse, n) is None {
                lemma_stocked_stops(batches@, rows@, warehouse, n, batches@.len());
            }
        }
        let on_hand = batch_on_hand(rows, b.item_id, Some(warehouse), b.id)?;
        if on_hand.is_positive() {
            out.push(
                LotStock {
                    item_id: b.item_id,
                    batch_id: b.id,
                    batch_no: b.batch_no.clone(),
                    expires_on: b.expires_on,
                    on_hand,
                },
            );
        }
        i = i + 1;
    }
    Ok(arrange(out))
}

/// What a lot in the catalog says.
pub struct Lot {
    pub id: u128,
    pub batch_no: Seq<char>,
    pub expires_on: Option<Day>,
    pub on_hand: Num,
}

impl View for CatalogBatch {
    type V = Lot;

    open spec fn view(&self) -> Lot {
        Lot {
            id: self.id,
            batch_no: self.batch_no@,
            expires_on: opt_day(self.expires_on),
            on_hand: self.on_hand@,
        }
    }
}

/// One item as the till caches it.
#[derive(Debug)]
pub struct CatalogItem {
    pub id: u128,
    pub sku: String,
    pub name: String,
    pub barcode: Option<String>,
    pub category_id: Option<u128>,
    pub image_file_id: Option<u128>,
    pub uom_code: String,
    /// Whole units only when false.
    pub uom_fractional: bool,
    pub price: Decimal,
    /// Where the price came from.
    pub price_source: Option<PriceSource>,
    pub tax_code_id: Option<u128>,
    pub tax_rate: Decimal,
    pub track_batches: bool,
    pub on_hand: Decimal,
    pub batches: Vec<CatalogBatch>,
    /// In microseconds since the epoch.
    pub updated_at: i64,
}

/// An item that the catalog may hold: when it changed last, and what the
/// pricing rules say of one unit of it.
#[derive(Debug)]
pub struct CatalogRow {
    pub item: Item,
    pub updated_at: i64,
    pub quote: Quote,
}

/// Whether the till can sell an item, and has not heard of it since.
pub open spec fn is_offered(row: CatalogRow, since: Option<i64>) -> bool {
    &&& row.item.is_active && row.item.is_sellable && !row.item.track_serials
    &&& since matches Some(t) ==> row.updated_at > t
}

/// The rows among the first `n` that the catalog holds.
pub open spec fn offered_to(rows: Seq<CatalogRow>, since: Option<i64>, n: nat) -> Seq<CatalogRow> {
    kept_to(rows, |row: CatalogRow| is_offered(row, since), n)
}

/// The lots of an item among the first `n`.
pub open spec fn lots_to(lots: Seq<LotStock>, item: u128, n: nat) -> Seq<Lot>
    decreases n,
{
    if n == 0 {
        Seq::empty()
    } else {
        let rest = lots_to(lots, item, (n - 1) as nat);
        let l = lots[n - 1];
        if l.item_id == item {
            rest.push(
                Lot {
                    id: l.batch_id,
                    batch_no: l.batch_no@,
                    expires_on: opt_day(l.expires_on),
                    on_hand: l.on_hand@,
                },
            )
        } else {
            rest
        }
    }
}

pub open spec fn at(warehouse: u128, item: u128) -> spec_fn(Level) -> bool {
    |l: Level| l.warehouse_id == warehouse && l.item_id == item
}

/// What is held of an item in a warehouse.
pub open spec fn held(levels: Seq<Level>, warehouse: u128, item: u128) -> Num {
    match first_where(levels, at(warehouse, item)) {
        Some(l) => l.on_hand@,
        None => zero(),
    }
}

/// The price of one unit: the register's own list, else the pricing rules; an
/// item without any price is listed at zero. `None` where it leaves the range.
pub open spec fn shelf_price(
    shop: Shop,
    own: Option<u128>,
    row: CatalogRow,
    currency: Seq<char>,
    today: Day,
) -> Option<(Num, Source)> {
    match list_price(
        shop.lists@,
        shop.entries@,
        own,
        row.item,
        (1int, 0nat),
        currency,
        today,
    ) {
        None => None,
        Some(Some((p, id))) => Some((p, Source::List(id))),
        Some(None) => match row.quote {
            Quote::Priced { price, source } => Some((price@, Source::Resolved(source@))),
            Quote::Refused(_) => Some((zero(), Source::ItemDefault)),
        },
    }
}

/// Whether an entry of the catalog shows an item.
pub open spec fn shows(
    c: CatalogItem,
    row: CatalogRow,
    shop: Shop,
    register: Register,
    buyer: Customer,
    levels: Seq<Level>,
    lots: Seq<LotStock>,
    today: Day,
) -> bool {
    let unit = first_where(shop.uoms@, uom_id(row.item.uom_id));
    let price = shelf_price(shop, register.price_list_id, row, buyer.currency@, today);
    &&& price is Some
    &&& c.id == row.item.id
    &&& c.sku@ == row.item.sku@
    &&& c.name@ == row.item.name@
    &&& opt_text(c.barcode) == opt_text(row.item.barcode)
    &&& c.category_id == row.item.category_id
    &&& c.image_file_id == row.item.image_file_id
    &&& c.uom_code@ == (match unit {
        Some(u) => u.code@,
        None => ""@,
    })
    &&& c.uom_fractional == (unit matches Some(u) && u.fractional)
    &&& c.price@ == (price->0).0
    &&& opt_source(c.price_source) == Some((price->0).1)
    &&& c.tax_code_id == row.item.sales_tax_code_id
    &&& c.tax_rate@ == rate_of(shop.rates@, row.item.sales_tax_code_id, buyer.tax_exempt)
    &&& c.track_batches == row.item.track_batches
    &&& c.on_hand@ == held(levels, register.warehouse_id, row.item.id)
    &&& c.batches@.map_values(|b: CatalogBatch| b@) == lots_to(lots, row.item.id, lots.len())
    &&& c.updated_at == row.updated_at
}

fn find_held(levels: &Vec<Level>, warehouse: u128, item: u128) -> (r: Decimal)
    ensures
        r@ == held(levels@, warehouse, item),
{
    let found = find(levels, Ghost(at(warehouse, item)), |x: &Level| -> (b: bool)
        ensures
            b == at(warehouse, item)(*x),
        { x.warehouse_id == warehouse && x.item_id == item });
    match found {
        Some(i) => levels[i].on_hand,
        None => Decimal::zero(),
    }
}

fn find_lots(lots: &Vec<LotStock>, item: u128) -> (r: Vec<CatalogBatch>)
    ensures
        r@.map_values(|b: CatalogBatch| b@) == lots_to(lots@, item, lots@.len()),
{
    let mut out: Vec<CatalogBatch> = Vec::new();
    let mut i: usize = 0;
    assert(out@.map_values(|b: CatalogBatch| b@) =~= lots_to(lots@, item, 0));
    while i < lots.len()
        invariant
            i <= lots.len(),
            out@.map_values(|b: CatalogBatch| b@) == lots_to(lots@, item, i as nat),
        decreases lots.len() - i,
    {
        let l = &lots[i];
        if l.item_id == item {
            let ghost before = out@.map_values(|b: CatalogBatch| b@);
            let lot = CatalogBatch {
                id: l.batch_id,
                batch_no: l.batch_no.clone(),
                expires_on: l.expires_on,
                on_hand: l.on_hand,
            };
            out.push(lot);
            assert(out@.map_values(|b: CatalogBatch| b@) =~= before.push(lot@));
        }
        i = i + 1;
    }
    out
}

fn price_of(
    shop: &Shop,
    own: Option<u128>,
    row: &CatalogRow,
    currency: &str,
    today: Date,
) -> (r: Result<(Decimal, PriceSource), Error>)
    ensures
        match shelf_price(*shop, own, *row, currency@, today@) {
            None => refusal(r) == Some(Refusal::Overflow),
            Some(p) => r is Ok && (r->Ok_0).0@ == p.0 && (r->Ok_0).1@ == p.1,
        },
{
    let listed = register_list_price(
        &shop.lists,
        &shop.entries,
        own,
        &row.item,
        Decimal::from_int(1),
        currency,
        today,
    )?;
    Ok(
        match listed {
            Some((p, id)) => (p, PriceSource::List(id)),
            None => match &row.quote {
                Quote::Priced { price, source } => (*price, PriceSource::Resolved(source.clone())),
                Quote::Refused(_) => (Decimal::zero(), PriceSource::ItemDefault),
            },
        },
    )
}

/// Whether a list shows what the till can sell of the rows, one by one.
pub open spec fn shows_all(
    items: Seq<CatalogItem>,
    rows: Seq<CatalogRow>,
    shop: Shop,
    register: Register,
    buyer: Customer,
    levels: Seq<Level>,
    lots: Seq<LotStock>,
    today: Day,
) -> bool {
    &&& items.len() == rows.len()
    &&& forall|i: int|
        0 <= i < rows.len() ==> shows(
            #[trigger] items[i],
            rows[i],
            shop,
            register,
            buyer,
            levels,
            lots,
            today,
        )
}

/// Whether the price of a row that is offered leaves the range.
pub open spec fn prices_overflow(
    rows: Seq<CatalogRow>,
    since: Option<i64>,
    shop: Shop,
    register: Register,
    buyer: Customer,
    today: Day,
) -> bool {
    exists|i: int|
        0 <= i < rows.len() && is_offered(#[trigger] rows[i], since) && shelf_price(
            shop,
            register.price_list_id,
            rows[i],
            buyer.currency@,
            today,
        ) is None
}

fn shelf(
    rows: &Vec<CatalogRow>,
    since: Option<i64>,
    shop: &Shop,
    register: &Register,
    buyer: &Customer,
    levels: &Vec<Level>,
    lots: &Vec<LotStock>,
    today: Date,
) -> (r: Result<Vec<CatalogItem>, Error>)
    ensures
        match r {
            Ok(items) => shows_all(
                items@,
                offered_to(rows@, since, rows@.len()),
                *shop,
                *register,
                *buyer,
                levels@,
                lots@,
                today@,
            ),
            Err(e) => e@ == Refusal::Overflow && prices_overflow(
                rows@,
                since,
                *shop,
                *register,
                *buyer,
                today@,
            ),
        },
{
    let mut out: Vec<CatalogItem> = Vec::new();
    let mut i: usize = 0;
    while i < rows.len()
        invariant
            i <= rows.len(),
            out@.len() == offered_to(rows@, since, i as nat).len(),
            forall|j: int|
                0 <= j < out@.len() ==> shows(
                    #[trigger] out@[j],
                    offered_to(rows@, since, i as nat)[j],
                    *shop,
                    *register,
                    *buyer,
                    levels@,
                    lots@,
                    today@,
                ),
        decreases rows.len() - i,
    {
        let row = &rows[i];
        let fresh = match since {
            Some(t) => row.updated_at > t,
            None => true,
        };
        if row.item.is_active && row.item.is_sellable && !row.item.track_serials && fresh {
            let (price, price_source) = match price_of(
                shop,
                register.price_list_id,
                row,
                buyer.currency.as_str(),
                today,
            ) {
                Ok(p) => p,
                Err(e) => {
                    assert(is_offered(rows@[i as int], since));
                    return Err(e);
                },
            };
            let (uom_code, uom_fractional) = match find_uom_by_id(&shop.uoms, row.item.uom_id) {
                Some(k) => (shop.uoms[k].code.clone(), shop.uoms[k].fractional),
                None => ("".to_owned(), false),
            };
            let barcode = match &row.item.barcode {
                Some(b) => Some(b.clone()),
                None => None,
            };
            out.push(
                CatalogItem {
                    id: row.item.id,
                    sku: row.item.sku.clone(),
                    name: row.item.name.clone(),
                    barcode,
                    category_id: row.item.category_id,
                    image_file_id: row.item.image_file_id,
                    uom_code,
                    uom_fractional,
                    price,
                    price_source: Some(price_source),
                    tax_code_id: row.item.sales_tax_code_id,
                    tax_rate: find_rate(&shop.rates, row.item.sales_tax_code_id, buyer.tax_exempt),
                    track_batches: row.item.track_batches,
                    on_hand: find_held(levels, register.warehouse_id, row.item.id),
                    batches: find_lots(lots, row.item.id),
                    updated_at: row.updated_at,
                },
            );
        }
        i = i + 1;
    }
    Ok(out)
}

/// Items are shown by SKU.
impl Ordered for CatalogItem {
    open spec fn precedes(a: CatalogItem, b: CatalogItem) -> bool {
        before(a.sku@, b.sku@)
    }

    fn goes_before(&self, other: &CatalogItem) -> (r: bool) {
        sorts_before(self.sku.as_str(), other.sku.as_str())
    }
}

/// The catalog of a register.
#[derive(Debug)]
pub struct CatalogView {
    /// When it was made, in microseconds since the epoch; what changes later is
    /// asked for by this.
    pub generated_at: i64,
    pub currency: String,
    pub items: Vec<CatalogItem>,
}

/// The lots that a catalog shows: none where no item that it offers tracks
/// them.
pub open spec fn shown_lots(lots: Seq<LotStock>, offered: Seq<CatalogRow>) -> Seq<LotStock> {
    if any(offered, |row: CatalogRow| row.item.track_batches) {
        lots
    } else {
        Seq::empty()
    }
}

fn offers_tracked(rows: &Vec<CatalogRow>, since: Option<i64>) -> (r: bool)
    ensures
        r == any(
            offered_to(rows@, since, rows@.len()),
            |row: CatalogRow| row.item.track_batches,
        ),
{
    let ghost tracks = |row: CatalogRow| row.item.track_batches;
    let mut i: usize = 0;
    while i < rows.len()
        invariant
            i <= rows.len(),
            tracks == |row: CatalogRow| row.item.track_batches,
            !any(offered_to(rows@, since, i as nat), tracks),
        decreases rows.len() - i,
    {
        let row = &rows[i];
        let fresh = match since {
            Some(t) => row.updated_at > t,
            None => true,
        };
        let offered = row.item.is_active && row.item.is_sellable && !row.item.track_serials && fresh;
        assert(offered == is_offered(rows@[i as int], since));
        if offered && row.item.track_batches {
            proof {
                let p = |row: CatalogRow| is_offered(row, since);
                lemma_kept_at(rows@, p, i as int, rows@.len());
                let at = kept_to(rows@, p, i as nat).len() as int;
                assert(offered_to(rows@, since, rows@.len())[at] == rows@[i as int]);
                let all = offered_to(rows@, since, rows@.len());
                let k = choose|k: int| 0 <= k < all.len() && #[trigger] all[k] == rows@[i as int];
                assert(tracks(all[k]));
            }
            return true;
        }
        proof {
            let before = offered_to(rows@, since, i as nat);
            let after = offered_to(rows@, since, (i + 1) as nat);
            assert forall|k: int| 0 <= k < after.len() implies !tracks(#[trigger] after[k]) by {
                if k < before.len() {
                    assert(after[k] == before[k]);
                    assert(!tracks(before[k]));
                }
            }
        }
        i = i + 1;
    }
    false
}

/// Build the catalog of a register: the items that the till can sell and that
/// changed since, priced for its usual buyer, with what its warehouse holds of
/// them, by their SKU. The lots come by the day they expire.
pub fn catalog(
    registers: &Vec<Register>,
    id: u128,
    rows: &Vec<CatalogRow>,
    since: Option<i64>,
    shop: &Shop,
    levels: &Vec<Level>,
    lots: &Vec<LotStock>,
    now: i64,
    today: Date,
) -> (r: Result<CatalogView, Error>)
    ensures
        match first_where(registers@, register_id(id)) {
            None => refusal(r) == Some(Refusal::NotFound("register "@ + id_text(id))),
            Some(register) => match buyer(
                shop.customers@,
                shop.walk_in_code@,
                register.default_customer_id,
            ) {
                Err(why) => refusal(r) == Some(why),
                Ok(who) => {
                    let offered = offered_to(rows@, since, rows@.len());
                    match r {
                        Ok(v) => {
                            &&& v.generated_at == now
                            &&& v.currency@ == who.currency@
                            &&& exists|items: Seq<CatalogItem>|
                                #[trigger] shows_all(
                                    items,
                                    offered,
                                    *shop,
                                    register,
                                    who,
                                    levels@,
                                    shown_lots(lots@, offered),
                                    today@,
                                ) && v.items@ == arranged(items)
                        },
                        Err(e) => e@ == Refusal::Overflow && prices_overflow(
                            rows@,
                            since,
                            *shop,
                            register,
                            who,
                            today@,
                        ),
                    }
                },
            },
        },
{
    let register = match find_register(registers, id) {
        Some(i) => &registers[i],
        None => {
            return Err(no_register(id));
        },
    };
    let who = match resolve_customer(
        &shop.customers,
        shop.walk_in_code.as_str(),
        register.default_customer_id,
    ) {
        Ok(c) => c,
        Err(e) => {
            return Err(e);
        },
    };
    let none: Vec<LotStock> = Vec::new();
    let found = if offers_tracked(rows, since) {
        shelf(rows, since, shop, register, who, levels, lots, today)
    } else {
        assert(none@ =~= Seq::empty());
        shelf(rows, since, shop, register, who, levels, &none, today)
    };
    match found {
        Ok(items) => {
            proof {
                let offered = offered_to(rows@, since, rows@.len());
                let shown = shown_lots(lots@, offered);
                assert(shows_all(
                    items@,
                    offered,
                    *shop,
                    *register,
                    *who,
                    levels@,
                    shown,
                    today@,
                ));
            }
            let items = arrange(items);
            Ok(CatalogView { generated_at: now, currency: who.currency.clone(), items })
        },
        Err(e) => Err(e),
    }
}

// ---------------------------------------------------------------------------
// Laws
// ---------------------------------------------------------------------------

/// The till shows what a sale charges: a line for one unit that a till rings up at the
/// price of its catalog is accepted that day at that price, from the same source and
/// without drift, online as offline.
pub proof fn the_till_shows_what_a_sale_charges(
    shop: Shop,
    own: Option<u128>,
    row: CatalogRow,
    currency: Seq<char>,
    today: Day,
    line: SaleLineInput,
    offline: bool,
    n: int,
)
    requires
        !line.manual_price,
        line.qty@ == (1int, 0nat),
        row.quote is Priced,
        shelf_price(shop, own, row, currency, today) is Some,
        worth(line.unit_price@) == worth((shelf_price(shop, own, row, currency, today)->0).0),
    ensures
        ({
            let shown = shelf_price(shop, own, row, currency, today)->0;
            let listed = list_price(
                shop.lists@,
                shop.entries@,
                own,
                row.item,
                line.qty@,
                currency,
                today,
            );
            line_price(line, listed, row.quote, offline, row.item.sku@, n) matches Ok(p) && p.unit
                == shown.0 && p.source == shown.1 && !p.drift
        }),
{
}

/// The catalog holds what can be sold: an item is in it exactly where a line of a sale may
/// name it; asked for what changed since a moment, it holds those of them that changed
/// after it. Items are known by their ids.
pub proof fn the_catalog_holds_what_can_be_sold(
    items: Seq<Item>,
    k: int,
    row: CatalogRow,
    since: i64,
    n: int,
)
    requires
        0 <= k < items.len(),
        items[k] == row.item,
        forall|j: int| 0 <= j < items.len() && j != k ==> (#[trigger] items[j]).id != row.item.id,
    ensures
        is_offered(row, None) <==> sellable_refusal(items, row.item.id, n) is None,
        is_offered(row, Some(since)) <==> is_offered(row, None) && since < row.updated_at,
{
    lemma_first_from(items, item_id(row.item.id), 0);
    assert(item_id(row.item.id)(items[k]));
}

} // verus!
