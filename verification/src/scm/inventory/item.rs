//! The item master: everything the business stocks, consumes, buys or sells,
//! with its categories and units of measure.

use crate::decimal::Decimal;
use crate::error::{either, refusal, Error, Refusal};
use crate::search::{
    find, first_from, first_where, keys_differ, lemma_changed_key, lemma_first_from, lemma_new_key,
};
use crate::text::{
    cat2, cat3, id_text, is_blank, keep_text, keep_trimmed, opt_text, quote, quoted, same, show_id,
    trim, trimmed, trimmed_unless_blank, unless_blank,
};
use vstd::prelude::*;

verus! {

/// What kind of thing an item is: stockable moves through the stock ledger, a
/// consumable is expensed on receipt, a service never has stock.
#[derive(Clone, Copy, Debug, PartialEq, Eq, Structural)]
pub enum ItemType {
    Stockable,
    Consumable,
    Service,
}

pub open spec fn type_text(t: ItemType) -> Seq<char> {
    match t {
        ItemType::Stockable => "stockable"@,
        ItemType::Consumable => "consumable"@,
        ItemType::Service => "service"@,
    }
}

impl ItemType {
    pub fn as_str(self) -> (r: &'static str)
        ensures
            r@ == type_text(self),
    {
        match self {
            ItemType::Stockable => "stockable",
            ItemType::Consumable => "consumable",
            ItemType::Service => "service",
        }
    }

    /// The type a text stands for.
    pub fn parse(value: &str) -> (r: Result<ItemType, Error>)
        ensures
            match r {
                Ok(t) => value@ == type_text(t),
                Err(e) => (forall|t: ItemType| value@ != #[trigger] type_text(t)) && e@
                    == Refusal::Validation(
                    "unknown item type "@ + quoted(value@)
                        + " (expected stockable, consumable or service)"@,
                ),
            },
    {
        if same(value, "stockable") {
            Ok(ItemType::Stockable)
        } else if same(value, "consumable") {
            Ok(ItemType::Consumable)
        } else if same(value, "service") {
            Ok(ItemType::Service)
        } else {
            let shown = quote(value);
            Err(
                Error::Validation(
                    cat3(
                        "unknown item type ",
                        shown.as_str(),
                        " (expected stockable, consumable or service)",
                    ),
                ),
            )
        }
    }
}

/// No two item types are written alike, so reading back what was written gives
/// the type that was written.
pub proof fn type_text_is_unambiguous(a: ItemType, b: ItemType)
    ensures
        type_text(a) == type_text(b) ==> a == b,
{
    reveal_strlit("stockable");
    reveal_strlit("consumable");
    reveal_strlit("service");
    assert("stockable"@[1] == 't');
    assert("consumable"@[1] == 'o');
    assert("service"@[1] == 'e');
}

/// How issues out of stock are costed. Only the moving average is available.
#[derive(Clone, Copy, Debug, PartialEq, Eq, Structural)]
pub enum CostingMethod {
    MovingAverage,
    Fifo,
    Standard,
}

pub open spec fn costing_text(m: CostingMethod) -> Seq<char> {
    match m {
        CostingMethod::MovingAverage => "moving_average"@,
        CostingMethod::Fifo => "fifo"@,
        CostingMethod::Standard => "standard"@,
    }
}

impl CostingMethod {
    pub fn as_str(self) -> (r: &'static str)
        ensures
            r@ == costing_text(self),
    {
        match self {
            CostingMethod::MovingAverage => "moving_average",
            CostingMethod::Fifo => "fifo",
            CostingMethod::Standard => "standard",
        }
    }

    /// The method a text stands for.
    pub fn parse(value: &str) -> (r: Result<CostingMethod, Error>)
        ensures
            match r {
                Ok(m) => value@ == costing_text(m),
                Err(e) => (forall|m: CostingMethod| value@ != #[trigger] costing_text(m)) && e@
                    == Refusal::Validation(
                    "unknown costing method "@ + quoted(value@)
                        + " (expected moving_average, fifo or standard)"@,
                ),
            },
    {
        if same(value, "moving_average") {
            Ok(CostingMethod::MovingAverage)
        } else if same(value, "fifo") {
            Ok(CostingMethod::Fifo)
        } else if same(value, "standard") {
            Ok(CostingMethod::Standard)
        } else {
            let shown = quote(value);
            Err(
                Error::Validation(
                    cat3(
                        "unknown costing method ",
                        shown.as_str(),
                        " (expected moving_average, fifo or standard)",
                    ),
                ),
            )
        }
    }
}

/// No two costing methods are written alike, so reading back what was written
/// gives the method that was written.
pub proof fn costing_text_is_unambiguous(a: CostingMethod, b: CostingMethod)
    ensures
        costing_text(a) == costing_text(b) ==> a == b,
{
    reveal_strlit("moving_average");
    reveal_strlit("fifo");
    reveal_strlit("standard");
    assert("moving_average"@[0] == 'm');
    assert("fifo"@[0] == 'f');
    assert("standard"@[0] == 's');
}

/// A category: a grouping in a tree, carrying the defaults an item inherits
/// where it has none of its own.
#[derive(Debug)]
pub struct Category {
    pub id: u128,
    pub code: Option<String>,
    pub name: String,
    pub description: Option<String>,
    pub parent_id: Option<u128>,
    pub default_costing_method: Option<CostingMethod>,
    pub default_uom_id: Option<u128>,
    pub inventory_account_role: Option<String>,
    pub cogs_account_role: Option<String>,
    pub adjustment_account_role: Option<String>,
    pub is_active: bool,
}

/// A category as a caller asks for it.
#[derive(Debug)]
pub struct CategoryBody {
    pub code: Option<String>,
    pub name: String,
    pub description: Option<String>,
    pub parent_id: Option<u128>,
    pub default_costing_method: Option<CostingMethod>,
    pub default_uom_id: Option<u128>,
    pub inventory_account_role: Option<String>,
    pub cogs_account_role: Option<String>,
    pub adjustment_account_role: Option<String>,
    pub is_active: bool,
}

/// A unit of measure: the granularity quantities are entered and stocked in.
#[derive(Debug)]
pub struct Uom {
    pub id: u128,
    pub code: String,
    pub name: String,
    pub symbol: Option<String>,
    /// Whether quantities in this unit may carry decimals (kg yes, unit no).
    pub fractional: bool,
    pub is_active: bool,
}

/// A unit of measure as a caller asks for it.
#[derive(Debug)]
pub struct UomBody {
    pub code: String,
    pub name: String,
    pub symbol: Option<String>,
    pub fractional: bool,
}

/// All writable fields of an item: its full intended state.
#[derive(Debug)]
pub struct ItemBody {
    pub sku: String,
    pub name: String,
    pub description: Option<String>,
    pub category_id: Option<u128>,
    pub brand: Option<String>,
    pub manufacturer: Option<String>,
    pub manufacturer_part_no: Option<String>,
    pub model: Option<String>,
    pub barcode: Option<String>,
    pub image_file_id: Option<u128>,
    pub country_of_origin: Option<String>,
    pub hs_code: Option<String>,
    pub notes: Option<String>,
    pub item_type: ItemType,
    pub is_purchasable: bool,
    pub is_sellable: bool,
    pub is_active: bool,
    pub uom_id: u128,
    pub purchase_uom_id: Option<u128>,
    pub sales_uom_id: Option<u128>,
    pub purchase_uom_factor: Option<Decimal>,
    pub costing_method: CostingMethod,
    pub standard_cost: Option<Decimal>,
    pub purchase_price: Option<Decimal>,
    pub selling_price: Option<Decimal>,
    pub min_selling_price: Option<Decimal>,
    pub purchase_tax_code_id: Option<u128>,
    pub sales_tax_code_id: Option<u128>,
    pub preferred_supplier_id: Option<u128>,
    pub lead_time_days: Option<i32>,
    pub min_order_qty: Option<Decimal>,
    pub order_multiple: Option<Decimal>,
    pub reorder_level: Option<Decimal>,
    pub reorder_qty: Option<Decimal>,
    pub max_level: Option<Decimal>,
    pub safety_stock: Option<Decimal>,
    pub default_warehouse_id: Option<u128>,
    pub track_batches: bool,
    pub track_serials: bool,
    pub shelf_life_days: Option<i32>,
    pub warranty_days: Option<i32>,
    pub allow_negative: bool,
    pub weight: Option<Decimal>,
    pub weight_uom_id: Option<u128>,
    pub volume: Option<Decimal>,
    pub length_mm: Option<Decimal>,
    pub width_mm: Option<Decimal>,
    pub height_mm: Option<Decimal>,
    pub inventory_account_role: Option<String>,
    pub cogs_account_role: Option<String>,
    pub adjustment_account_role: Option<String>,
    pub expense_account_role: Option<String>,
}

/// An item.
#[derive(Debug)]
pub struct Item {
    pub id: u128,
    pub sku: String,
    pub name: String,
    pub description: Option<String>,
    pub category_id: Option<u128>,
    pub brand: Option<String>,
    pub manufacturer: Option<String>,
    pub manufacturer_part_no: Option<String>,
    pub model: Option<String>,
    pub barcode: Option<String>,
    pub image_file_id: Option<u128>,
    pub country_of_origin: Option<String>,
    pub hs_code: Option<String>,
    pub notes: Option<String>,
    pub item_type: ItemType,
    pub is_purchasable: bool,
    pub is_sellable: bool,
    pub is_active: bool,
    pub uom_id: u128,
    pub purchase_uom_id: Option<u128>,
    pub sales_uom_id: Option<u128>,
    pub purchase_uom_factor: Option<Decimal>,
    pub costing_method: CostingMethod,
    pub standard_cost: Option<Decimal>,
    pub purchase_price: Option<Decimal>,
    /// Maintained by receipts.
    pub last_purchase_price: Option<Decimal>,
    pub selling_price: Option<Decimal>,
    pub min_selling_price: Option<Decimal>,
    pub purchase_tax_code_id: Option<u128>,
    pub sales_tax_code_id: Option<u128>,
    pub preferred_supplier_id: Option<u128>,
    pub lead_time_days: Option<i32>,
    pub min_order_qty: Option<Decimal>,
    pub order_multiple: Option<Decimal>,
    pub reorder_level: Option<Decimal>,
    pub reorder_qty: Option<Decimal>,
    pub max_level: Option<Decimal>,
    pub safety_stock: Option<Decimal>,
    pub default_warehouse_id: Option<u128>,
    pub track_batches: bool,
    pub track_serials: bool,
    pub shelf_life_days: Option<i32>,
    pub warranty_days: Option<i32>,
    pub allow_negative: bool,
    pub weight: Option<Decimal>,
    pub weight_uom_id: Option<u128>,
    pub volume: Option<Decimal>,
    pub length_mm: Option<Decimal>,
    pub width_mm: Option<Decimal>,
    pub height_mm: Option<Decimal>,
    pub inventory_account_role: Option<String>,
    pub cogs_account_role: Option<String>,
    pub adjustment_account_role: Option<String>,
    pub expense_account_role: Option<String>,
}

// ---------------------------------------------------------------------------
// Lookups
// ---------------------------------------------------------------------------

pub open spec fn item_id(id: u128) -> spec_fn(Item) -> bool {
    |i: Item| i.id == id
}

pub open spec fn item_sku(sku: Seq<char>) -> spec_fn(Item) -> bool {
    |i: Item| i.sku@ == sku
}

pub open spec fn item_barcode(barcode: Seq<char>) -> spec_fn(Item) -> bool {
    |i: Item| opt_text(i.barcode) == Some(barcode)
}

pub open spec fn item_in(category: u128) -> spec_fn(Item) -> bool {
    |i: Item| i.category_id == Some(category)
}

pub open spec fn category_id(id: u128) -> spec_fn(Category) -> bool {
    |c: Category| c.id == id
}

pub open spec fn category_name(name: Seq<char>) -> spec_fn(Category) -> bool {
    |c: Category| c.name@ == name
}

pub open spec fn category_under(id: u128) -> spec_fn(Category) -> bool {
    |c: Category| c.parent_id == Some(id)
}

pub open spec fn uom_id(id: u128) -> spec_fn(Uom) -> bool {
    |u: Uom| u.id == id
}

pub open spec fn uom_code(code: Seq<char>) -> spec_fn(Uom) -> bool {
    |u: Uom| u.code@ == code
}

/// The place of the item with that id.
pub fn find_item_by_id(list: &Vec<Item>, id: u128) -> (r: Option<usize>)
    ensures
        match r {
            Some(i) => i < list@.len() && first_where(list@, item_id(id)) == Some(
                list@[i as int],
            ) && item_id(id)(list@[i as int]),
            None => first_where(list@, item_id(id)) is None,
        },
{
    find(list, Ghost(item_id(id)), |x: &Item| -> (b: bool)
        ensures
            b == item_id(id)(*x),
        { x.id == id })
}

/// The place of the item with that sku.
fn find_item_by_sku(list: &Vec<Item>, sku: &str) -> (r: Option<usize>)
    ensures
        match r {
            Some(i) => i < list@.len() && first_where(list@, item_sku(sku@)) == Some(
                list@[i as int],
            ) && item_sku(sku@)(list@[i as int]),
            None => first_where(list@, item_sku(sku@)) is None,
        },
{
    find(list, Ghost(item_sku(sku@)), |x: &Item| -> (b: bool)
        ensures
            b == item_sku(sku@)(*x),
        { same(x.sku.as_str(), sku) })
}

/// The place of the item with that barcode.
fn find_item_by_barcode(list: &Vec<Item>, barcode: &str) -> (r: Option<usize>)
    ensures
        match r {
            Some(i) => i < list@.len() && first_where(list@, item_barcode(barcode@)) == Some(
                list@[i as int],
            ) && item_barcode(barcode@)(list@[i as int]),
            None => first_where(list@, item_barcode(barcode@)) is None,
        },
{
    find(list, Ghost(item_barcode(barcode@)), |x: &Item| -> (b: bool)
        ensures
            b == item_barcode(barcode@)(*x),
        {
            match &x.barcode {
                Some(b) => same(b.as_str(), barcode),
                None => false,
            }
        })
}

/// The place of an item in the category.
fn find_item_in(list: &Vec<Item>, category: u128) -> (r: Option<usize>)
    ensures
        match r {
            Some(i) => i < list@.len() && first_where(list@, item_in(category)) == Some(
                list@[i as int],
            ) && item_in(category)(list@[i as int]),
            None => first_where(list@, item_in(category)) is None,
        },
{
    find(list, Ghost(item_in(category)), |x: &Item| -> (b: bool)
        ensures
            b == item_in(category)(*x),
        {
            match x.category_id {
                Some(c) => c == category,
                None => false,
            }
        })
}

/// The place of the category with that id.
pub fn find_category_by_id(list: &Vec<Category>, id: u128) -> (r: Option<usize>)
    ensures
        match r {
            Some(i) => i < list@.len() && first_where(list@, category_id(id)) == Some(
                list@[i as int],
            ) && category_id(id)(list@[i as int]),
            None => first_where(list@, category_id(id)) is None,
        },
{
    find(list, Ghost(category_id(id)), |x: &Category| -> (b: bool)
        ensures
            b == category_id(id)(*x),
        { x.id == id })
}

/// The place of the category with that name.
fn find_category_by_name(list: &Vec<Category>, name: &str) -> (r: Option<usize>)
    ensures
        match r {
            Some(i) => i < list@.len() && first_where(list@, category_name(name@)) == Some(
                list@[i as int],
            ) && category_name(name@)(list@[i as int]),
            None => first_where(list@, category_name(name@)) is None,
        },
{
    find(list, Ghost(category_name(name@)), |x: &Category| -> (b: bool)
        ensures
            b == category_name(name@)(*x),
        { same(x.name.as_str(), name) })
}

/// The place of a category under the category.
fn find_category_under(list: &Vec<Category>, id: u128) -> (r: Option<usize>)
    ensures
        match r {
            Some(i) => i < list@.len() && first_where(list@, category_under(id)) == Some(
                list@[i as int],
            ) && category_under(id)(list@[i as int]),
            None => first_where(list@, category_under(id)) is None,
        },
{
    find(list, Ghost(category_under(id)), |x: &Category| -> (b: bool)
        ensures
            b == category_under(id)(*x),
        {
            match x.parent_id {
                Some(p) => p == id,
                None => false,
            }
        })
}

/// The place of the unit with that id.
pub fn find_uom_by_id(list: &Vec<Uom>, id: u128) -> (r: Option<usize>)
    ensures
        match r {
            Some(i) => i < list@.len() && first_where(list@, uom_id(id)) == Some(
                list@[i as int],
            ) && uom_id(id)(list@[i as int]),
            None => first_where(list@, uom_id(id)) is None,
        },
{
    find(list, Ghost(uom_id(id)), |x: &Uom| -> (b: bool)
        ensures
            b == uom_id(id)(*x),
        { x.id == id })
}

/// The place of the unit with that code.
fn find_uom_by_code(list: &Vec<Uom>, code: &str) -> (r: Option<usize>)
    ensures
        match r {
            Some(i) => i < list@.len() && first_where(list@, uom_code(code@)) == Some(
                list@[i as int],
            ) && uom_code(code@)(list@[i as int]),
            None => first_where(list@, uom_code(code@)) is None,
        },
{
    find(list, Ghost(uom_code(code@)), |x: &Uom| -> (b: bool)
        ensures
            b == uom_code(code@)(*x),
        { same(x.code.as_str(), code) })
}

// ---------------------------------------------------------------------------
// Items
// ---------------------------------------------------------------------------

/// The masters that items are decided against, as they were loaded.
#[derive(Debug)]
pub struct Store {
    pub items: Vec<Item>,
    pub categories: Vec<Category>,
    pub uoms: Vec<Uom>,
    /// The ids of the warehouses that exist.
    pub warehouses: Vec<u128>,
    /// The ids of the suppliers that exist.
    pub suppliers: Vec<u128>,
}

/// Whether a record found by a unique field is another one than the record
/// being changed.
pub open spec fn is_other(found: Option<Item>, existing: Option<u128>) -> bool {
    match found {
        Some(f) => existing != Some(f.id),
        None => false,
    }
}

/// Why a unit cannot be used, where it cannot: it must exist and be active.
pub open spec fn uom_refusal(uoms: Seq<Uom>, id: u128) -> Option<Refusal> {
    match first_where(uoms, uom_id(id)) {
        Some(u) if u.is_active => None,
        _ => Some(
            Refusal::Validation("unit of measure "@ + id_text(id) + " does not exist"@),
        ),
    }
}

pub open spec fn opt_uom_refusal(uoms: Seq<Uom>, id: Option<u128>) -> Option<Refusal> {
    match id {
        Some(id) => uom_refusal(uoms, id),
        None => None,
    }
}

/// Why a reference without a foreign key cannot stand, where it cannot.
pub open spec fn soft_refusal(known: Seq<u128>, id: Option<u128>, label: Seq<char>) -> Option<
    Refusal,
> {
    match id {
        Some(id) if !known.contains(id) => Some(
            Refusal::Validation(label + id_text(id) + " does not exist"@),
        ),
        _ => None,
    }
}

pub open spec fn category_refusal(categories: Seq<Category>, id: Option<u128>) -> Option<Refusal> {
    match id {
        Some(id) => if first_where(categories, category_id(id)) is None {
            Some(Refusal::NotFound("category "@ + id_text(id)))
        } else {
            None
        },
        None => None,
    }
}

/// Why a figure cannot stand, where it cannot: it must not be negative.
pub open spec fn figure_refusal(label: Seq<char>, value: Option<Decimal>) -> Option<Refusal> {
    match value {
        Some(v) if v@.0 < 0 => Some(Refusal::Validation(label + " must not be negative"@)),
        _ => None,
    }
}

/// Why the figures of an item are refused: the first negative one decides.
pub open spec fn figures_refusal(body: ItemBody) -> Option<Refusal> {
    let a = either(
        figure_refusal("purchase_uom_factor"@, body.purchase_uom_factor),
        figure_refusal("standard_cost"@, body.standard_cost),
    );
    let b = either(a, figure_refusal("purchase_price"@, body.purchase_price));
    let c = either(b, figure_refusal("selling_price"@, body.selling_price));
    let d = either(c, figure_refusal("min_selling_price"@, body.min_selling_price));
    let e = either(d, figure_refusal("min_order_qty"@, body.min_order_qty));
    let f = either(e, figure_refusal("order_multiple"@, body.order_multiple));
    let g = either(f, figure_refusal("reorder_level"@, body.reorder_level));
    let h = either(g, figure_refusal("reorder_qty"@, body.reorder_qty));
    let i = either(h, figure_refusal("max_level"@, body.max_level));
    let j = either(i, figure_refusal("safety_stock"@, body.safety_stock));
    let k = either(j, figure_refusal("weight"@, body.weight));
    either(k, figure_refusal("volume"@, body.volume))
}

/// Why an item is refused, where it is. `existing` is the id of the item being
/// changed, where one is.
pub open spec fn item_refusal(store: Store, body: ItemBody, existing: Option<u128>) -> Option<
    Refusal,
> {
    let sku = trimmed(body.sku@);
    let barcode = trimmed_unless_blank(opt_text(body.barcode));
    if sku.len() == 0 {
        Some(Refusal::Validation("item sku must not be empty"@))
    } else if is_blank(body.name@) {
        Some(Refusal::Validation("item name must not be empty"@))
    } else if body.costing_method != CostingMethod::MovingAverage {
        Some(
            Refusal::Validation(
                "costing method "@ + quoted(costing_text(body.costing_method))
                    + " is not available yet; only moving_average is supported"@,
            ),
        )
    } else if is_other(first_where(store.items@, item_sku(sku)), existing) {
        Some(Refusal::Conflict("item sku "@ + quoted(sku) + " already exists"@))
    } else if barcode is Some && is_other(
        first_where(store.items@, item_barcode(barcode->0)),
        existing,
    ) {
        Some(
            Refusal::Conflict("barcode "@ + quoted(barcode->0) + " is already on another item"@),
        )
    } else {
        either(
            uom_refusal(store.uoms@, body.uom_id),
            either(
                opt_uom_refusal(store.uoms@, body.purchase_uom_id),
                either(
                    opt_uom_refusal(store.uoms@, body.sales_uom_id),
                    either(
                        opt_uom_refusal(store.uoms@, body.weight_uom_id),
                        either(
                            category_refusal(store.categories@, body.category_id),
                            either(
                                soft_refusal(
                                    store.warehouses@,
                                    body.default_warehouse_id,
                                    "default warehouse "@,
                                ),
                                either(
                                    soft_refusal(
                                        store.suppliers@,
                                        body.preferred_supplier_id,
                                        "preferred supplier "@,
                                    ),
                                    figures_refusal(body),
                                ),
                            ),
                        ),
                    ),
                ),
            ),
        )
    }
}

/// The item that a body describes: blank texts are dropped, the sku, name and
/// barcode are trimmed, all else is kept.
pub open spec fn is_item(i: Item, body: ItemBody, id: u128, last: Option<Decimal>) -> bool {
    &&& i.id == id
    &&& i.last_purchase_price == last
    &&& i.sku@ == trimmed(body.sku@)
    &&& i.name@ == trimmed(body.name@)
    &&& opt_text(i.barcode) == trimmed_unless_blank(opt_text(body.barcode))
    &&& opt_text(i.description) == unless_blank(opt_text(body.description))
    &&& i.category_id == body.category_id
    &&& opt_text(i.brand) == unless_blank(opt_text(body.brand))
    &&& opt_text(i.manufacturer) == unless_blank(opt_text(body.manufacturer))
    &&& opt_text(i.manufacturer_part_no) == unless_blank(opt_text(body.manufacturer_part_no))
    &&& opt_text(i.model) == unless_blank(opt_text(body.model))
    &&& i.image_file_id == body.image_file_id
    &&& opt_text(i.country_of_origin) == unless_blank(opt_text(body.country_of_origin))
    &&& opt_text(i.hs_code) == unless_blank(opt_text(body.hs_code))
    &&& opt_text(i.notes) == unless_blank(opt_text(body.notes))
    &&& i.item_type == body.item_type
    &&& i.is_purchasable == body.is_purchasable
    &&& i.is_sellable == body.is_sellable
    &&& i.is_active == body.is_active
    &&& i.uom_id == body.uom_id
    &&& i.purchase_uom_id == body.purchase_uom_id
    &&& i.sales_uom_id == body.sales_uom_id
    &&& i.purchase_uom_factor == body.purchase_uom_factor
    &&& i.costing_method == body.costing_method
    &&& i.standard_cost == body.standard_cost
    &&& i.purchase_price == body.purchase_price
    &&& i.selling_price == body.selling_price
    &&& i.min_selling_price == body.min_selling_price
    &&& i.purchase_tax_code_id == body.purchase_tax_code_id
    &&& i.sales_tax_code_id == body.sales_tax_code_id
    &&& i.preferred_supplier_id == body.preferred_supplier_id
    &&& i.lead_time_days == body.lead_time_days
    &&& i.min_order_qty == body.min_order_qty
    &&& i.order_multiple == body.order_multiple
    &&& i.reorder_level == body.reorder_level
    &&& i.reorder_qty == body.reorder_qty
    &&& i.max_level == body.max_level
    &&& i.safety_stock == body.safety_stock
    &&& i.default_warehouse_id == body.default_warehouse_id
    &&& i.track_batches == body.track_batches
    &&& i.track_serials == body.track_serials
    &&& i.shelf_life_days == body.shelf_life_days
    &&& i.warranty_days == body.warranty_days
    &&& i.allow_negative == body.allow_negative
    &&& i.weight == body.weight
    &&& i.weight_uom_id == body.weight_uom_id
    &&& i.volume == body.volume
    &&& i.length_mm == body.length_mm
    &&& i.width_mm == body.width_mm
    &&& i.height_mm == body.height_mm
    &&& opt_text(i.inventory_account_role) == opt_text(body.inventory_account_role)
    &&& opt_text(i.cogs_account_role) == opt_text(body.cogs_account_role)
    &&& opt_text(i.adjustment_account_role) == opt_text(body.adjustment_account_role)
    &&& opt_text(i.expense_account_role) == opt_text(body.expense_account_role)
}

fn check_figure(label: &str, value: Option<Decimal>) -> (r: Result<(), Error>)
    ensures
        refusal(r) == figure_refusal(label@, value),
{
    if let Some(v) = value {
        if v.is_negative() {
            return Err(Error::Validation(cat2(label, " must not be negative")));
        }
    }
    Ok(())
}

fn check_figures(body: &ItemBody) -> (r: Result<(), Error>)
    ensures
        refusal(r) == figures_refusal(*body),
{
    check_figure("purchase_uom_factor", body.purchase_uom_factor)?;
    check_figure("standard_cost", body.standard_cost)?;
    check_figure("purchase_price", body.purchase_price)?;
    check_figure("selling_price", body.selling_price)?;
    check_figure("min_selling_price", body.min_selling_price)?;
    check_figure("min_order_qty", body.min_order_qty)?;
    check_figure("order_multiple", body.order_multiple)?;
    check_figure("reorder_level", body.reorder_level)?;
    check_figure("reorder_qty", body.reorder_qty)?;
    check_figure("max_level", body.max_level)?;
    check_figure("safety_stock", body.safety_stock)?;
    check_figure("weight", body.weight)?;
    check_figure("volume", body.volume)?;
    Ok(())
}

fn check_soft(known: &Vec<u128>, id: Option<u128>, label: &str) -> (r: Result<(), Error>)
    ensures
        refusal(r) == soft_refusal(known@, id, label@),
{
    if let Some(wanted) = id {
        let mut i: usize = 0;
        while i < known.len()
            invariant
                i <= known.len(),
                id == Some(wanted),
                forall|j: int| 0 <= j < i ==> #[trigger] known@[j] != wanted,
            decreases known.len() - i,
        {
            if known[i] == wanted {
                assert(known@.contains(wanted));
                return Ok(());
            }
            i = i + 1;
        }
        let shown = show_id(wanted);
        return Err(Error::Validation(cat3(label, shown.as_str(), " does not exist")));
    }
    Ok(())
}

fn item_from_body(body: ItemBody, id: u128, last: Option<Decimal>) -> (r: Item)
    ensures
        is_item(r, body, id, last),
{
    Item {
        id,
        sku: trim(body.sku.as_str()),
        name: trim(body.name.as_str()),
        barcode: keep_trimmed(body.barcode),
        last_purchase_price: last,
        description: keep_text(body.description),
        category_id: body.category_id,
        brand: keep_text(body.brand),
        manufacturer: keep_text(body.manufacturer),
        manufacturer_part_no: keep_text(body.manufacturer_part_no),
        model: keep_text(body.model),
        image_file_id: body.image_file_id,
        country_of_origin: keep_text(body.country_of_origin),
        hs_code: keep_text(body.hs_code),
        notes: keep_text(body.notes),
        item_type: body.item_type,
        is_purchasable: body.is_purchasable,
        is_sellable: body.is_sellable,
        is_active: body.is_active,
        uom_id: body.uom_id,
        purchase_uom_id: body.purchase_uom_id,
        sales_uom_id: body.sales_uom_id,
        purchase_uom_factor: body.purchase_uom_factor,
        costing_method: body.costing_method,
        standard_cost: body.standard_cost,
        purchase_price: body.purchase_price,
        selling_price: body.selling_price,
        min_selling_price: body.min_selling_price,
        purchase_tax_code_id: body.purchase_tax_code_id,
        sales_tax_code_id: body.sales_tax_code_id,
        preferred_supplier_id: body.preferred_supplier_id,
        lead_time_days: body.lead_time_days,
        min_order_qty: body.min_order_qty,
        order_multiple: body.order_multiple,
        reorder_level: body.reorder_level,
        reorder_qty: body.reorder_qty,
        max_level: body.max_level,
        safety_stock: body.safety_stock,
        default_warehouse_id: body.default_warehouse_id,
        track_batches: body.track_batches,
        track_serials: body.track_serials,
        shelf_life_days: body.shelf_life_days,
        warranty_days: body.warranty_days,
        allow_negative: body.allow_negative,
        weight: body.weight,
        weight_uom_id: body.weight_uom_id,
        volume: body.volume,
        length_mm: body.length_mm,
        width_mm: body.width_mm,
        height_mm: body.height_mm,
        inventory_account_role: body.inventory_account_role,
        cogs_account_role: body.cogs_account_role,
        adjustment_account_role: body.adjustment_account_role,
        expense_account_role: body.expense_account_role,
    }
}

/// What deleting an item comes to.
#[derive(Clone, Copy, Debug, PartialEq, Eq, Structural)]
pub enum Removal {
    /// It has stock history and is deactivated instead.
    Deactivate,
    /// Nothing refers to it, and it goes.
    Delete,
}

impl Store {
    fn ensure_uom(&self, id: u128) -> (r: Result<(), Error>)
        ensures
            refusal(r) == uom_refusal(self.uoms@, id),
    {
        if let Some(i) = find_uom_by_id(&self.uoms, id) {
            if self.uoms[i].is_active {
                return Ok(());
            }
        }
        let shown = show_id(id);
        Err(Error::Validation(cat3("unit of measure ", shown.as_str(), " does not exist")))
    }

    fn ensure_opt_uom(&self, id: Option<u128>) -> (r: Result<(), Error>)
        ensures
            refusal(r) == opt_uom_refusal(self.uoms@, id),
    {
        match id {
            Some(id) => self.ensure_uom(id),
            None => Ok(()),
        }
    }

    fn ensure_category(&self, id: Option<u128>) -> (r: Result<(), Error>)
        ensures
            refusal(r) == category_refusal(self.categories@, id),
    {
        match id {
            Some(id) => {
                let _ = self.find_category(id)?;
                Ok(())
            },
            None => Ok(()),
        }
    }

    /// The item with that id.
    pub fn find_item(&self, id: u128) -> (r: Result<&Item, Error>)
        ensures
            match first_where(self.items@, item_id(id)) {
                Some(i) => r is Ok && *r->Ok_0 == i,
                None => refusal(r) == Some(Refusal::NotFound("item "@ + id_text(id))),
            },
    {
        match find_item_by_id(&self.items, id) {
            Some(i) => Ok(&self.items[i]),
            None => {
                let shown = show_id(id);
                Err(Error::NotFound(cat2("item ", shown.as_str())))
            },
        }
    }

    /// The category with that id.
    pub fn find_category(&self, id: u128) -> (r: Result<&Category, Error>)
        ensures
            match first_where(self.categories@, category_id(id)) {
                Some(c) => r is Ok && *r->Ok_0 == c,
                None => refusal(r) == Some(Refusal::NotFound("category "@ + id_text(id))),
            },
    {
        match find_category_by_id(&self.categories, id) {
            Some(i) => Ok(&self.categories[i]),
            None => {
                let shown = show_id(id);
                Err(Error::NotFound(cat2("category ", shown.as_str())))
            },
        }
    }

    /// Check an item that is created, or changed where `existing` is its id.
    pub fn validate_item(&self, body: &ItemBody, existing: Option<u128>) -> (r: Result<(), Error>)
        ensures
            refusal(r) == item_refusal(*self, *body, existing),
    {
        let sku = trim(body.sku.as_str());
        if sku.as_str().unicode_len() == 0 {
            return Err(Error::Validation("item sku must not be empty".to_owned()));
        }
        let name = trim(body.name.as_str());
        if name.as_str().unicode_len() == 0 {
            return Err(Error::Validation("item name must not be empty".to_owned()));
        }
        if body.costing_method != CostingMethod::MovingAverage {
            let shown = quote(body.costing_method.as_str());
            return Err(
                Error::Validation(
                    cat3(
                        "costing method ",
                        shown.as_str(),
                        " is not available yet; only moving_average is supported",
                    ),
                ),
            );
        }
        if let Some(i) = find_item_by_sku(&self.items, sku.as_str()) {
            if existing != Some(self.items[i].id) {
                let shown = quote(sku.as_str());
                return Err(Error::Conflict(cat3("item sku ", shown.as_str(), " already exists")));
            }
        }
        if let Some(raw) = &body.barcode {
            let barcode = trim(raw.as_str());
            if barcode.as_str().unicode_len() != 0 {
                if let Some(i) = find_item_by_barcode(&self.items, barcode.as_str()) {
                    if existing != Some(self.items[i].id) {
                        let shown = quote(barcode.as_str());
                        return Err(
                            Error::Conflict(
                                cat3("barcode ", shown.as_str(), " is already on another item"),
                            ),
                        );
                    }
                }
            }
        }
        self.ensure_uom(body.uom_id)?;
        self.ensure_opt_uom(body.purchase_uom_id)?;
        self.ensure_opt_uom(body.sales_uom_id)?;
        self.ensure_opt_uom(body.weight_uom_id)?;
        self.ensure_category(body.category_id)?;
        check_soft(&self.warehouses, body.default_warehouse_id, "default warehouse ")?;
        check_soft(&self.suppliers, body.preferred_supplier_id, "preferred supplier ")?;
        check_figures(body)
    }

    /// Decide on a new item; `id` is the id it gets.
    pub fn create_item(&self, body: ItemBody, id: u128) -> (r: Result<Item, Error>)
        ensures
            refusal(r) == item_refusal(*self, body, None),
            r matches Ok(i) ==> is_item(i, body, id, None),
    {
        self.validate_item(&body, None)?;
        Ok(item_from_body(body, id, None))
    }

    /// Decide on the new state of an item. Its last purchase price is kept.
    pub fn update_item(&self, id: u128, body: ItemBody) -> (r: Result<Item, Error>)
        ensures
            match first_where(self.items@, item_id(id)) {
                None => refusal(r) == Some(Refusal::NotFound("item "@ + id_text(id))),
                Some(existing) => {
                    &&& refusal(r) == item_refusal(*self, body, Some(existing.id))
                    &&& r matches Ok(i) ==> is_item(
                        i,
                        body,
                        existing.id,
                        existing.last_purchase_price,
                    )
                },
            },
    {
        let existing = self.find_item(id)?;
        let id: u128 = existing.id;
        let last = existing.last_purchase_price;
        self.validate_item(&body, Some(id))?;
        Ok(item_from_body(body, id, last))
    }

    /// Decide on deleting an item: one with stock history is deactivated.
    pub fn delete_item(&self, id: u128, moved: u64) -> (r: Result<Removal, Error>)
        ensures
            refusal(r) == (match first_where(self.items@, item_id(id)) {
                None => Some(Refusal::NotFound("item "@ + id_text(id))),
                Some(_) => None,
            }),
            r matches Ok(what) ==> what == if moved > 0 {
                Removal::Deactivate
            } else {
                Removal::Delete
            },
    {
        let _ = self.find_item(id)?;
        if moved > 0 {
            Ok(Removal::Deactivate)
        } else {
            Ok(Removal::Delete)
        }
    }
}

// ---------------------------------------------------------------------------
// Categories
// ---------------------------------------------------------------------------

/// Why a category is refused, where it is. `existing` is the id of the
/// category being changed, where one is.
pub open spec fn category_body_refusal(
    store: Store,
    body: CategoryBody,
    existing: Option<u128>,
) -> Option<Refusal> {
    let name = trimmed(body.name@);
    if name.len() == 0 {
        Some(Refusal::Validation("category name must not be empty"@))
    } else if first_where(store.categories@, category_name(name)) matches Some(c) && existing
        != Some(c.id) {
        Some(Refusal::Conflict("category name "@ + quoted(name) + " already exists"@))
    } else if body.parent_id is Some && body.parent_id == existing {
        Some(Refusal::Validation("a category cannot be its own parent"@))
    } else {
        either(
            category_refusal(store.categories@, body.parent_id),
            opt_uom_refusal(store.uoms@, body.default_uom_id),
        )
    }
}

/// The category that a body describes.
pub open spec fn is_category(c: Category, body: CategoryBody, id: u128) -> bool {
    &&& c.id == id
    &&& opt_text(c.code) == trimmed_unless_blank(opt_text(body.code))
    &&& c.name@ == trimmed(body.name@)
    &&& opt_text(c.description) == unless_blank(opt_text(body.description))
    &&& c.parent_id == body.parent_id
    &&& c.default_costing_method == body.default_costing_method
    &&& c.default_uom_id == body.default_uom_id
    &&& c.inventory_account_role == body.inventory_account_role
    &&& c.cogs_account_role == body.cogs_account_role
    &&& c.adjustment_account_role == body.adjustment_account_role
    &&& c.is_active == body.is_active
}

fn category_from_body(body: CategoryBody, id: u128) -> (r: Category)
    ensures
        is_category(r, body, id),
{
    Category {
        id,
        code: keep_trimmed(body.code),
        name: trim(body.name.as_str()),
        description: keep_text(body.description),
        parent_id: body.parent_id,
        default_costing_method: body.default_costing_method,
        default_uom_id: body.default_uom_id,
        inventory_account_role: body.inventory_account_role,
        cogs_account_role: body.cogs_account_role,
        adjustment_account_role: body.adjustment_account_role,
        is_active: body.is_active,
    }
}

/// What walking up the tree from a category meets.
pub enum Walk {
    /// The category looked for.
    Meets,
    /// The top, without having met it.
    Ends,
    /// A parent that does not exist.
    Breaks(u128),
}

/// Walking up at most `steps` steps from `at`, looking for `id`. Nothing where
/// the steps run out.
pub open spec fn walk(categories: Seq<Category>, id: u128, at: Option<u128>, steps: nat) -> Option<
    Walk,
>
    decreases steps,
{
    match at {
        None => Some(Walk::Ends),
        Some(current) => if current == id {
            Some(Walk::Meets)
        } else {
            match first_where(categories, category_id(current)) {
                None => Some(Walk::Breaks(current)),
                Some(c) => if steps == 0 {
                    None
                } else {
                    walk(categories, id, c.parent_id, (steps - 1) as nat)
                },
            }
        },
    }
}

/// Why a parent would close a loop in the tree, or break it, where it would.
/// A walk that does not end within as many steps as there are categories is
/// already in a loop.
pub open spec fn cycle_refusal(categories: Seq<Category>, id: u128, parent: u128) -> Option<Refusal> {
    match walk(categories, id, Some(parent), categories.len()) {
        Some(Walk::Ends) => None,
        Some(Walk::Breaks(at)) => Some(Refusal::NotFound("category "@ + id_text(at))),
        _ => Some(Refusal::Validation("category parent would create a cycle"@)),
    }
}

impl Store {
    fn validate_category(&self, body: &CategoryBody, existing: Option<u128>) -> (r: Result<
        (),
        Error,
    >)
        ensures
            refusal(r) == category_body_refusal(*self, *body, existing),
    {
        let name = trim(body.name.as_str());
        if name.as_str().unicode_len() == 0 {
            return Err(Error::Validation("category name must not be empty".to_owned()));
        }
        if let Some(i) = find_category_by_name(&self.categories, name.as_str()) {
            if existing != Some(self.categories[i].id) {
                let shown = quote(name.as_str());
                return Err(
                    Error::Conflict(cat3("category name ", shown.as_str(), " already exists")),
                );
            }
        }
        if body.parent_id.is_some() && body.parent_id == existing {
            return Err(Error::Validation("a category cannot be its own parent".to_owned()));
        }
        self.ensure_category(body.parent_id)?;
        self.ensure_opt_uom(body.default_uom_id)
    }

    /// Walk up from `parent`: meeting `id` on the way means that the change
    /// would close a loop in the tree.
    fn ensure_no_category_cycle(&self, id: u128, parent: u128) -> (r: Result<(), Error>)
        ensures
            refusal(r) == cycle_refusal(self.categories@, id, parent),
    {
        let mut cursor: Option<u128> = Some(parent);
        let mut steps: usize = self.categories.len();
        loop
            invariant
                steps <= self.categories.len(),
                walk(self.categories@, id, Some(parent), self.categories@.len()) == walk(
                    self.categories@,
                    id,
                    cursor,
                    steps as nat,
                ),
            decreases steps,
        {
            match cursor {
                None => {
                    return Ok(());
                },
                Some(current) => {
                    if current == id {
                        return Err(
                            Error::Validation("category parent would create a cycle".to_owned()),
                        );
                    }
                    let next = self.find_category(current)?;
                    if steps == 0 {
                        return Err(
                            Error::Validation("category parent would create a cycle".to_owned()),
                        );
                    }
                    steps = steps - 1;
                    cursor = next.parent_id;
                },
            }
        }
    }

    /// Decide on a new category; `id` is the id it gets.
    pub fn create_category(&self, body: CategoryBody, id: u128) -> (r: Result<Category, Error>)
        ensures
            refusal(r) == category_body_refusal(*self, body, None),
            r matches Ok(c) ==> is_category(c, body, id),
    {
        self.validate_category(&body, None)?;
        Ok(category_from_body(body, id))
    }

    /// Decide on the new state of a category.
    pub fn update_category(&self, id: u128, body: CategoryBody) -> (r: Result<Category, Error>)
        ensures
            refusal(r) == (match first_where(self.categories@, category_id(id)) {
                None => Some(Refusal::NotFound("category "@ + id_text(id))),
                Some(existing) => either(
                    category_body_refusal(*self, body, Some(existing.id)),
                    match body.parent_id {
                        Some(parent) => cycle_refusal(self.categories@, id, parent),
                        None => None,
                    },
                ),
            }),
            r matches Ok(c) ==> is_category(c, body, id),
    {
        let existing = self.find_category(id)?;
        proof {
            lemma_first_from(self.categories@, category_id(id), 0);
        }
        self.validate_category(&body, Some(existing.id))?;
        if let Some(parent) = body.parent_id {
            self.ensure_no_category_cycle(id, parent)?;
        }
        Ok(category_from_body(body, id))
    }

    /// Decide on deleting a category: refused while it has sub-categories or
    /// items.
    pub fn delete_category(&self, id: u128) -> (r: Result<(), Error>)
        ensures
            refusal(r) == (match first_where(self.categories@, category_id(id)) {
                None => Some(Refusal::NotFound("category "@ + id_text(id))),
                Some(_) => if first_where(self.categories@, category_under(id)) is Some {
                    Some(
                        Refusal::Validation("category has sub-categories and cannot be deleted"@),
                    )
                } else if first_where(self.items@, item_in(id)) is Some {
                    Some(
                        Refusal::Validation(
                            "category has items and cannot be deleted; move or recategorize them first"@,
                        ),
                    )
                } else {
                    None
                },
            }),
    {
        let _ = self.find_category(id)?;
        if find_category_under(&self.categories, id).is_some() {
            return Err(
                Error::Validation("category has sub-categories and cannot be deleted".to_owned()),
            );
        }
        if find_item_in(&self.items, id).is_some() {
            return Err(
                Error::Validation(
                    "category has items and cannot be deleted; move or recategorize them first".to_owned(),
                ),
            );
        }
        Ok(())
    }

    /// Decide on a new unit of measure; `id` is the id it gets.
    pub fn create_uom(&self, body: UomBody, id: u128) -> (r: Result<Uom, Error>)
        ensures
            refusal(r) == ({
                let code = trimmed(body.code@);
                if code.len() == 0 {
                    Some(Refusal::Validation("uom code must not be empty"@))
                } else if is_blank(body.name@) {
                    Some(Refusal::Validation("uom name must not be empty"@))
                } else if first_where(self.uoms@, uom_code(code)) is Some {
                    Some(Refusal::Conflict("uom code "@ + quoted(code) + " already exists"@))
                } else {
                    None
                }
            }),
            r matches Ok(u) ==> {
                &&& u.id == id
                &&& u.code@ == trimmed(body.code@)
                &&& u.name@ == trimmed(body.name@)
                &&& opt_text(u.symbol) == unless_blank(opt_text(body.symbol))
                &&& u.fractional == body.fractional
                &&& u.is_active
            },
    {
        let code = trim(body.code.as_str());
        if code.as_str().unicode_len() == 0 {
            return Err(Error::Validation("uom code must not be empty".to_owned()));
        }
        let name = trim(body.name.as_str());
        if name.as_str().unicode_len() == 0 {
            return Err(Error::Validation("uom name must not be empty".to_owned()));
        }
        if find_uom_by_code(&self.uoms, code.as_str()).is_some() {
            let shown = quote(code.as_str());
            return Err(Error::Conflict(cat3("uom code ", shown.as_str(), " already exists")));
        }
        Ok(
            Uom {
                id,
                code,
                name,
                symbol: keep_text(body.symbol),
                fractional: body.fractional,
                is_active: true,
            },
        )
    }
}

// ---------------------------------------------------------------------------
// Laws
// ---------------------------------------------------------------------------

proof fn lemma_other_lookup(categories: Seq<Category>, k: int, new: Category, id: u128)
    requires
        0 <= k < categories.len(),
        categories[k].id == new.id,
        id != new.id,
    ensures
        first_where(categories.update(k, new), category_id(id)) == first_where(
            categories,
            category_id(id),
        ),
{
    let changed = categories.update(k, new);
    let p = category_id(id);
    lemma_first_from(categories, p, 0);
    lemma_first_from(changed, p, 0);
    assert forall|i: int| 0 <= i < categories.len() implies p(categories[i]) == p(
        #[trigger] changed[i],
    ) by {}
    match first_from(categories, p, 0) {
        Some(i) => {
            assert(p(changed[i]));
            let j = first_from(changed, p, 0)->0;
            assert(p(categories[j]));
        },
        None => {
            if first_from(changed, p, 0) is Some {
                let j = first_from(changed, p, 0)->0;
                assert(p(categories[j]));
            }
        },
    }
}

proof fn lemma_walk_kept(
    categories: Seq<Category>,
    k: int,
    new: Category,
    at: Option<u128>,
    steps: nat,
)
    requires
        0 <= k < categories.len(),
        categories[k].id == new.id,
        walk(categories, new.id, at, steps) == Some(Walk::Ends),
    ensures
        walk(categories.update(k, new), new.id, at, steps) == Some(Walk::Ends),
    decreases steps,
{
    if let Some(current) = at {
        lemma_other_lookup(categories, k, new, current);
        let c = first_where(categories, category_id(current))->0;
        lemma_walk_kept(categories, k, new, c.parent_id, (steps - 1) as nat);
    }
}

/// A category that is given an accepted parent does not become its own
/// ancestor: in the changed tree the walk up from its parent ends without
/// meeting it.
pub proof fn accepted_parents_make_no_loop(categories: Seq<Category>, k: int, new: Category)
    requires
        0 <= k < categories.len(),
        categories[k].id == new.id,
        new.parent_id is Some,
        cycle_refusal(categories, new.id, new.parent_id->0) is None,
    ensures
        cycle_refusal(categories.update(k, new), new.id, new.parent_id->0) is None,
{
    lemma_walk_kept(categories, k, new, new.parent_id, categories.len());
}

/// The SKUs of items.
pub open spec fn skus() -> spec_fn(Item) -> Seq<char> {
    |i: Item| i.sku@
}

/// The ids of items.
pub open spec fn item_ids() -> spec_fn(Item) -> u128 {
    |i: Item| i.id
}

/// An item that is accepted has an SKU of its own.
pub proof fn new_items_keep_skus_apart(store: Store, body: ItemBody, new: Item)
    requires
        keys_differ(store.items@, skus()),
        item_refusal(store, body, None) is None,
        new.sku@ == trimmed(body.sku@),
    ensures
        keys_differ(store.items@.push(new), skus()),
{
    lemma_first_from(store.items@, item_sku(new.sku@), 0);
    lemma_new_key(store.items@, skus(), new);
}

/// An item that is changed still has an SKU of its own.
pub proof fn changed_items_keep_skus_apart(store: Store, body: ItemBody, at: int, new: Item)
    requires
        keys_differ(store.items@, skus()),
        keys_differ(store.items@, item_ids()),
        0 <= at < store.items@.len(),
        item_refusal(store, body, Some(store.items@[at].id)) is None,
        new.sku@ == trimmed(body.sku@),
    ensures
        keys_differ(store.items@.update(at, new), skus()),
{
    let items = store.items@;
    lemma_first_from(items, item_sku(new.sku@), 0);
    assert forall|i: int| 0 <= i < items.len() && i != at implies skus()(#[trigger] items[i])
        != skus()(new) by {
        if items[i].sku@ == new.sku@ {
            let k = first_from(items, item_sku(new.sku@), 0)->0;
            assert(item_ids()(items[k]) == item_ids()(items[at]));
            assert(k == at);
            assert(skus()(items[at]) == skus()(items[i]));
        }
    }
    lemma_changed_key(items, skus(), at, new);
}

/// Whether a unit is there and active.
pub open spec fn has_uom(uoms: Seq<Uom>, id: u128) -> bool {
    exists|i: int| 0 <= i < uoms.len() && (#[trigger] uoms[i]).id == id && uoms[i].is_active
}

/// Whether a figure is absent or not negative.
pub open spec fn not_negative(value: Option<Decimal>) -> bool {
    value matches Some(v) ==> v@.0 >= 0
}

proof fn lemma_uom_there(uoms: Seq<Uom>, id: u128)
    requires
        uom_refusal(uoms, id) is None,
    ensures
        has_uom(uoms, id),
{
    lemma_first_from(uoms, uom_id(id), 0);
    let i = first_from(uoms, uom_id(id), 0)->0;
    assert(uoms[i].id == id);
}

/// An item that is accepted is sound: it has an SKU and a name, is costed at the moving
/// average, and its barcode is on no other item; its units are there and active, its
/// category, its warehouse and its supplier are there; and none of its figures is
/// negative. Items are known by their ids.
pub proof fn accepted_items_are_sound(store: Store, body: ItemBody, existing: Option<u128>)
    requires
        item_refusal(store, body, existing) is None,
        keys_differ(store.items@, item_ids()),
    ensures
        trimmed(body.sku@).len() > 0,
        !is_blank(body.name@),
        body.costing_method == CostingMethod::MovingAverage,
        has_uom(store.uoms@, body.uom_id),
        body.purchase_uom_id matches Some(id) ==> has_uom(store.uoms@, id),
        body.sales_uom_id matches Some(id) ==> has_uom(store.uoms@, id),
        body.weight_uom_id matches Some(id) ==> has_uom(store.uoms@, id),
        body.category_id matches Some(id) ==> exists|i: int|
            0 <= i < store.categories@.len() && (#[trigger] store.categories@[i]).id == id,
        body.default_warehouse_id matches Some(id) ==> store.warehouses@.contains(id),
        body.preferred_supplier_id matches Some(id) ==> store.suppliers@.contains(id),
        not_negative(body.purchase_uom_factor) && not_negative(body.standard_cost) && not_negative(
            body.purchase_price,
        ),
        not_negative(body.selling_price) && not_negative(body.min_selling_price),
        not_negative(body.min_order_qty) && not_negative(body.order_multiple),
        not_negative(body.reorder_level) && not_negative(body.reorder_qty) && not_negative(
            body.max_level,
        ) && not_negative(body.safety_stock),
        not_negative(body.weight) && not_negative(body.volume),
{
    lemma_uom_there(store.uoms@, body.uom_id);
    if let Some(id) = body.purchase_uom_id {
        lemma_uom_there(store.uoms@, id);
    }
    if let Some(id) = body.sales_uom_id {
        lemma_uom_there(store.uoms@, id);
    }
    if let Some(id) = body.weight_uom_id {
        lemma_uom_there(store.uoms@, id);
    }
    if let Some(id) = body.category_id {
        lemma_first_from(store.categories@, category_id(id), 0);
        let i = first_from(store.categories@, category_id(id), 0)->0;
        assert(store.categories@[i].id == id);
    }
}

/// A new item's barcode is on no item there is.
pub proof fn new_items_keep_barcodes_apart(store: Store, body: ItemBody, i: int)
    requires
        item_refusal(store, body, None) is None,
        trimmed_unless_blank(opt_text(body.barcode)) is Some,
        0 <= i < store.items@.len(),
    ensures
        opt_text(store.items@[i].barcode) != trimmed_unless_blank(opt_text(body.barcode)),
{
    let barcode = trimmed_unless_blank(opt_text(body.barcode))->0;
    lemma_first_from(store.items@, item_barcode(barcode), 0);
    assert(!item_barcode(barcode)(store.items@[i]));
}

proof fn lemma_walk_avoids(
    categories: Seq<Category>,
    id: u128,
    chain: Seq<int>,
    steps: nat,
    from: int,
    i: int,
)
    requires
        keys_differ(categories, |c: Category| c.id),
        0 <= from <= i < chain.len(),
        forall|k: int| 0 <= k < chain.len() ==> 0 <= #[trigger] chain[k] < categories.len(),
        forall|k: int, l: int|
            #![trigger chain[k], chain[l]]
            0 <= k && l == k + 1 && l < chain.len() ==> categories[chain[k]].parent_id == Some(
                categories[chain[l]].id,
            ),
        walk(categories, id, Some(categories[chain[from]].id), steps) == Some(Walk::Ends),
    ensures
        categories[chain[i]].id != id,
    decreases i - from,
{
    let at = categories[chain[from]];
    let key = |c: Category| c.id;
    lemma_first_from(categories, category_id(at.id), 0);
    assert(category_id(at.id)(categories[chain[from]]));
    let k = first_from(categories, category_id(at.id), 0)->0;
    assert(key(categories[k]) == key(categories[chain[from]]));
    assert(k == chain[from]);
    if from < i {
        assert(at.parent_id == Some(categories[chain[from + 1]].id));
        lemma_walk_avoids(categories, id, chain, (steps - 1) as nat, from + 1, i);
    }
}

/// No category stands above itself: from a parent that is accepted for a category, no way
/// up the tree, however long, leads back to that category. Categories are known by
/// their ids.
pub proof fn no_category_is_above_itself(
    categories: Seq<Category>,
    id: u128,
    parent: u128,
    chain: Seq<int>,
    i: int,
)
    requires
        keys_differ(categories, |c: Category| c.id),
        cycle_refusal(categories, id, parent) is None,
        0 <= i < chain.len(),
        forall|k: int| 0 <= k < chain.len() ==> 0 <= #[trigger] chain[k] < categories.len(),
        categories[chain[0]].id == parent,
        forall|k: int, l: int|
            #![trigger chain[k], chain[l]]
            0 <= k && l == k + 1 && l < chain.len() ==> categories[chain[k]].parent_id == Some(
                categories[chain[l]].id,
            ),
    ensures
        categories[chain[i]].id != id,
{
    lemma_walk_avoids(categories, id, chain, categories.len(), 0, i);
}

} // verus!
