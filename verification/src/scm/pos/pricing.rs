//! Who buys, and at what price: the buyer of a sale, and a register's own price
//! list.

use crate::date::{day_number, earlier, is_date, lemma_day_number_orders, Date, Day};
use crate::decimal::{abs, aligns, combined, minus, over, rounded, times, worth, zero, Decimal, Num};
use crate::error::{in_range, refusal, Error, Refusal};
use crate::scm::inventory::item::Item;
use crate::scm::inventory::stock::round_money;
use crate::search::{find, first_from, first_where, lemma_first_from};
use crate::sums::{hundredth, lemma_percentage, product_of, quotient_of, rounded_of};
use crate::text::{cat2, id_text, same, show_id};
use vstd::prelude::*;

verus! {

/// A customer.
#[derive(Debug)]
pub struct Customer {
    pub id: u128,
    pub code: String,
    pub name: String,
    pub currency: String,
    pub tax_exempt: bool,
    pub is_active: bool,
}

pub open spec fn customer_id(id: u128) -> spec_fn(Customer) -> bool {
    |c: Customer| c.id == id
}

pub open spec fn customer_code(code: Seq<char>) -> spec_fn(Customer) -> bool {
    |c: Customer| c.code@ == code
}

/// The place of the customer with that id.
pub fn find_customer(customers: &Vec<Customer>, id: u128) -> (r: Option<usize>)
    ensures
        match r {
            Some(i) => i < customers@.len() && first_where(customers@, customer_id(id)) == Some(
                customers@[i as int],
            ),
            None => first_where(customers@, customer_id(id)) is None,
        },
{
    find(customers, Ghost(customer_id(id)), |x: &Customer| -> (b: bool)
        ensures
            b == customer_id(id)(*x),
        { x.id == id })
}

/// The buyer: the one that is wanted, who must be active, or the walk-in
/// customer, who must exist.
pub open spec fn buyer(customers: Seq<Customer>, walk_in: Seq<char>, wanted: Option<u128>) -> Result<
    Customer,
    Refusal,
> {
    match wanted {
        Some(id) => match first_where(customers, customer_id(id)) {
            Some(c) if c.is_active => Ok(c),
            _ => Err(Refusal::NotFound("customer "@ + id_text(id))),
        },
        None => match first_where(customers, customer_code(walk_in)) {
            Some(c) => Ok(c),
            None => Err(Refusal::Internal("the walk-in customer is missing; reseed the tenant"@)),
        },
    }
}

/// Find the buyer: the one that is wanted, or the walk-in customer, who is
/// known by the code `walk_in`.
pub fn resolve_customer<'a>(
    customers: &'a Vec<Customer>,
    walk_in: &str,
    wanted: Option<u128>,
) -> (r: Result<&'a Customer, Error>)
    ensures
        match buyer(customers@, walk_in@, wanted) {
            Ok(c) => r is Ok && *r->Ok_0 == c,
            Err(why) => refusal(r) == Some(why),
        },
{
    match wanted {
        Some(id) => {
            if let Some(i) = find_customer(customers, id) {
                if customers[i].is_active {
                    return Ok(&customers[i]);
                }
            }
            let shown = show_id(id);
            Err(Error::NotFound(cat2("customer ", shown.as_str())))
        },
        None => {
            let mut i: usize = 0;
            while i < customers.len()
                invariant
                    i <= customers.len(),
                    wanted is None,
                    first_from(customers@, customer_code(walk_in@), 0) == first_from(
                        customers@,
                        customer_code(walk_in@),
                        i as int,
                    ),
                decreases customers.len() - i,
            {
                if same(customers[i].code.as_str(), walk_in) {
                    return Ok(&customers[i]);
                }
                i = i + 1;
            }
            Err(Error::Internal("the walk-in customer is missing; reseed the tenant".to_owned()))
        },
    }
}

/// Where a price came from.
#[derive(Debug)]
pub enum PriceSource {
    /// The register's own price list.
    List(u128),
    /// The pricing rules, in their own words.
    Resolved(String),
    /// The item itself; also where it has no price yet.
    ItemDefault,
}

pub enum Source {
    List(u128),
    Resolved(Seq<char>),
    ItemDefault,
}

impl View for PriceSource {
    type V = Source;

    open spec fn view(&self) -> Source {
        match self {
            PriceSource::List(id) => Source::List(*id),
            PriceSource::Resolved(s) => Source::Resolved(s@),
            PriceSource::ItemDefault => Source::ItemDefault,
        }
    }
}

/// The text that a price's source is stored and shown as.
pub open spec fn source_text(s: Source) -> Seq<char> {
    match s {
        Source::List(id) => "list:"@ + id_text(id),
        Source::Resolved(t) => t,
        Source::ItemDefault => "item_default"@,
    }
}

impl PriceSource {
    /// The text that it is stored and shown as.
    pub fn as_string(&self) -> (r: String)
        ensures
            r@ == source_text(self@),
    {
        match self {
            PriceSource::List(id) => {
                let shown = show_id(*id);
                cat2("list:", shown.as_str())
            },
            PriceSource::Resolved(t) => t.clone(),
            PriceSource::ItemDefault => "item_default".to_owned(),
        }
    }
}

pub open spec fn opt_source(s: Option<PriceSource>) -> Option<Source> {
    match s {
        Some(s) => Some(s@),
        None => None,
    }
}

pub fn copy_source(s: &Option<PriceSource>) -> (r: Option<PriceSource>)
    ensures
        opt_source(r) == opt_source(*s),
{
    match s {
        Some(PriceSource::List(id)) => Some(PriceSource::List(*id)),
        Some(PriceSource::Resolved(t)) => Some(PriceSource::Resolved(t.clone())),
        Some(PriceSource::ItemDefault) => Some(PriceSource::ItemDefault),
        None => None,
    }
}

/// What the pricing rules answered for a line: for a manual price, whether it
/// is allowed; otherwise the price for the buyer.
#[derive(Debug)]
pub enum Quote {
    Priced { price: Decimal, source: String },
    Refused(Error),
}

/// A price list.
#[derive(Debug)]
pub struct PriceList {
    pub id: u128,
    pub status: String,
    pub currency: String,
    pub valid_from: Option<Date>,
    pub valid_to: Option<Date>,
}

/// An entry of a price list: what an item costs from a quantity on.
#[derive(Clone, Copy, Debug)]
pub struct PriceListItem {
    pub price_list_id: u128,
    pub item_id: u128,
    pub uom_id: Option<u128>,
    pub min_qty: Decimal,
    pub unit_price: Option<Decimal>,
    pub discount_pct: Option<Decimal>,
}

/// Whether a list holds: active, in the currency, and valid on the day.
pub open spec fn is_live(list: PriceList, currency: Seq<char>, day: Day) -> bool {
    &&& list.status@ == "active"@
    &&& list.currency@ == currency
    &&& list.valid_from matches Some(f) ==> !earlier(day, f@)
    &&& list.valid_to matches Some(t) ==> !earlier(t@, day)
}

pub open spec fn list_id(id: u128) -> spec_fn(PriceList) -> bool {
    |l: PriceList| l.id == id
}

/// The place of the price list with that id.
pub fn find_list(lists: &Vec<PriceList>, id: u128) -> (r: Option<usize>)
    ensures
        match r {
            Some(i) => i < lists@.len() && first_where(lists@, list_id(id)) == Some(
                lists@[i as int],
            ) && lists@[i as int].id == id,
            None => first_where(lists@, list_id(id)) is None,
        },
{
    find(lists, Ghost(list_id(id)), |x: &PriceList| -> (b: bool)
        ensures
            b == list_id(id)(*x),
        { x.id == id })
}

/// Whether an entry of a list speaks of a quantity of an item.
pub open spec fn applies(e: PriceListItem, list: u128, item: u128, qty: Num) -> bool {
    e.price_list_id == list && e.item_id == item && e.uom_id is None && worth(e.min_qty@) <= worth(qty)
}

/// Among the first `n` entries that apply, the place of the one for the
/// largest quantity; the first of them where several are.
pub open spec fn best_to(
    entries: Seq<PriceListItem>,
    list: u128,
    item: u128,
    qty: Num,
    n: nat,
) -> Option<int>
    decreases n,
{
    if n == 0 {
        None
    } else {
        let rest = best_to(entries, list, item, qty, (n - 1) as nat);
        let e = entries[n - 1];
        if !applies(e, list, item, qty) {
            rest
        } else {
            match rest {
                Some(i) => if worth(entries[i].min_qty@) < worth(e.min_qty@) {
                    Some(n - 1)
                } else {
                    rest
                },
                None => Some(n - 1),
            }
        }
    }
}

/// A percentage off a price, to the cent.
pub open spec fn discounted(base: Num, pct: Num) -> Option<Num> {
    rounded_of(
        quotient_of(
            product_of(Some(base), minus((100int, 0nat), pct)),
            Some((100int, 0nat)),
        ),
        2,
    )
}

/// The price of an entry: its own, or the item's selling price less its
/// discount. The outer level is absent where the price leaves the range.
pub open spec fn entry_price(e: PriceListItem, item: Item) -> Option<Option<Num>> {
    match (e.unit_price, e.discount_pct) {
        (Some(p), _) => Some(Some(p@)),
        (None, Some(pct)) => {
            let base = match item.selling_price {
                Some(s) => s@,
                None => zero(),
            };
            match discounted(base, pct@) {
                Some(p) => Some(Some(p)),
                None => None,
            }
        },
        (None, None) => Some(None),
    }
}

/// The register's own price of a quantity of an item, where its list has one,
/// with the list's id. The outer level is absent where it leaves the range.
pub open spec fn list_price(
    lists: Seq<PriceList>,
    entries: Seq<PriceListItem>,
    own: Option<u128>,
    item: Item,
    qty: Num,
    currency: Seq<char>,
    day: Day,
) -> Option<Option<(Num, u128)>> {
    match own {
        None => Some(None),
        Some(id) => match first_where(lists, list_id(id)) {
            Some(l) if is_live(l, currency, day) => match best_to(
                entries,
                id,
                item.id,
                qty,
                entries.len(),
            ) {
                None => Some(None),
                Some(i) => match entry_price(entries[i], item) {
                    None => None,
                    Some(None) => Some(None),
                    Some(Some(p)) => Some(Some((p, id))),
                },
            },
            _ => Some(None),
        },
    }
}

fn best_entry(entries: &Vec<PriceListItem>, list: u128, item: u128, qty: Decimal) -> (r: Option<usize>)
    ensures
        best_to(entries@, list, item, qty@, entries@.len()) == (match r {
            Some(i) => Some(i as int),
            None => None,
        }),
        r matches Some(i) ==> i < entries@.len(),
{
    let mut best: Option<usize> = None;
    let mut n: usize = 0;
    while n < entries.len()
        invariant
            n <= entries.len(),
            best_to(entries@, list, item, qty@, n as nat) == (match best {
                Some(i) => Some(i as int),
                None => None,
            }),
            best matches Some(i) ==> i < n,
        decreases entries.len() - n,
    {
        let e = entries[n];
        if e.price_list_id == list && e.item_id == item && e.uom_id.is_none() && !qty.less(&e.min_qty) {
            match best {
                Some(i) => {
                    if entries[i].min_qty.less(&e.min_qty) {
                        best = Some(n);
                    }
                },
                None => {
                    best = Some(n);
                },
            }
        }
        n = n + 1;
    }
    best
}

/// The register's own price of a quantity of an item: from an active list in
/// the right currency whose window covers the day, quantity breaks honoured.
/// `own` names the register's list, where it has one.
pub fn register_list_price(
    lists: &Vec<PriceList>,
    entries: &Vec<PriceListItem>,
    own: Option<u128>,
    item: &Item,
    qty: Decimal,
    currency: &str,
    day: Date,
) -> (r: Result<Option<(Decimal, u128)>, Error>)
    ensures
        match list_price(lists@, entries@, own, *item, qty@, currency@, day@) {
            None => refusal(r) == Some(Refusal::Overflow),
            Some(None) => r is Ok && r->Ok_0 is None,
            Some(Some(p)) => r is Ok && r->Ok_0 is Some && (r->Ok_0->0).0@ == p.0 && (
            r->Ok_0->0).1 == p.1,
        },
{
    let list = match own {
        Some(id) => match find_list(lists, id) {
            Some(i) => &lists[i],
            None => {
                return Ok(None);
            },
        },
        None => {
            return Ok(None);
        },
    };
    let started = match &list.valid_from {
        Some(f) => !day.is_before(f),
        None => true,
    };
    let lasting = match &list.valid_to {
        Some(t) => !t.is_before(&day),
        None => true,
    };
    if !same(list.status.as_str(), "active") || !same(list.currency.as_str(), currency) || !started
        || !lasting {
        return Ok(None);
    }
    let e = match best_entry(entries, list.id, item.id, qty) {
        Some(i) => entries[i],
        None => {
            return Ok(None);
        },
    };
    if let Some(p) = e.unit_price {
        return Ok(Some((p, list.id)));
    }
    match e.discount_pct {
        None => Ok(None),
        Some(pct) => {
            let base = match item.selling_price {
                Some(s) => s,
                None => Decimal::zero(),
            };
            let hundred = Decimal::one_hundred();
            let part = in_range(hundred.checked_sub(pct))?;
            let product = in_range(base.checked_mul(part))?;
            let price = in_range(product.checked_div(hundred))?;
            Ok(Some((round_money(price), list.id)))
        },
    }
}

/// A discounted price of ordinary size is the exact share that is left of it, to
/// the cent.
pub proof fn discounts_are_exact(base: Num, pct: Num)
    requires
        aligns((100, 0), pct, -1),
        ({
            let left = combined((100, 0), pct, -1);
            abs(base.0 * left.0) < 0x4_0000_0000_0000_0000 && base.1 + left.1 <= 19
        }),
    ensures
        ({
            let left = combined((100, 0), pct, -1);
            discounted(base, pct) matches Some(p) && worth(p) == worth(
                rounded(hundredth((base.0 * left.0, base.1 + left.1)), 2),
            )
        }),
{
    lemma_percentage(base, combined((100, 0), pct, -1), 2);
}

/// The entry that is taken applies; of those that apply none is for a larger
/// quantity, and none before it for as large a one.
proof fn lemma_best(entries: Seq<PriceListItem>, list: u128, item: u128, qty: Num, n: nat)
    requires
        n <= entries.len(),
    ensures
        match best_to(entries, list, item, qty, n) {
            Some(i) => {
                &&& 0 <= i < n
                &&& applies(entries[i], list, item, qty)
                &&& forall|j: int|
                    0 <= j < n && #[trigger] applies(entries[j], list, item, qty) ==> worth(
                        entries[j].min_qty@,
                    ) <= worth(entries[i].min_qty@) && (j < i ==> worth(entries[j].min_qty@)
                        < worth(entries[i].min_qty@))
            },
            None => forall|j: int| 0 <= j < n ==> !#[trigger] applies(entries[j], list, item, qty),
        },
    decreases n,
{
    if n > 0 {
        lemma_best(entries, list, item, qty, (n - 1) as nat);
    }
}

/// Whether a day lies in the window of a list, both ends included; a missing end is
/// open.
pub open spec fn in_window(list: PriceList, day: Day) -> bool {
    &&& list.valid_from matches Some(f) ==> day_number(f@) <= day_number(day)
    &&& list.valid_to matches Some(t) ==> day_number(day) <= day_number(t@)
}

/// Whether the days of a list are days of the calendar.
pub open spec fn dated(list: PriceList) -> bool {
    &&& list.valid_from matches Some(f) ==> is_date(f@)
    &&& list.valid_to matches Some(t) ==> is_date(t@)
}

proof fn lemma_window(list: PriceList, currency: Seq<char>, day: Day)
    requires
        dated(list),
        is_date(day),
    ensures
        is_live(list, currency, day) == (list.status@ == "active"@ && list.currency@ == currency
            && in_window(list, day)),
{
    if let Some(f) = list.valid_from {
        lemma_day_number_orders(day, f@);
        lemma_day_number_orders(f@, day);
    }
    if let Some(t) = list.valid_to {
        lemma_day_number_orders(day, t@);
        lemma_day_number_orders(t@, day);
    }
}

/// The register's list prices an item on every day of its window: where the list
/// is active and in the currency, the price is that of its entry for the item
/// with the largest quantity that is not above the one sold. Lists are known by
/// their ids.
pub proof fn lists_price_every_day_of_their_window(
    lists: Seq<PriceList>,
    entries: Seq<PriceListItem>,
    k: int,
    b: int,
    item: Item,
    qty: Num,
    currency: Seq<char>,
    day: Day,
)
    requires
        0 <= k < lists.len(),
        forall|j: int| 0 <= j < lists.len() && j != k ==> (#[trigger] lists[j]).id != lists[k].id,
        dated(lists[k]),
        is_date(day),
        lists[k].status@ == "active"@,
        lists[k].currency@ == currency,
        in_window(lists[k], day),
        0 <= b < entries.len(),
        entries[b].price_list_id == lists[k].id,
        entries[b].item_id == item.id,
        entries[b].uom_id is None,
        worth(entries[b].min_qty@) <= worth(qty),
        forall|j: int|
            0 <= j < entries.len() && j != b && (#[trigger] entries[j]).price_list_id
                == lists[k].id && entries[j].item_id == item.id && entries[j].uom_id is None
                && worth(entries[j].min_qty@) <= worth(qty) ==> worth(entries[j].min_qty@) < worth(
                entries[b].min_qty@,
            ),
    ensures
        ({
            let price = list_price(lists, entries, Some(lists[k].id), item, qty, currency, day);
            &&& entries[b].unit_price matches Some(p) ==> price == Some(Some((p@, lists[k].id)))
            &&& entries[b].unit_price is None && entries[b].discount_pct is None ==> price == Some(
                None::<(Num, u128)>,
            )
            &&& entries[b].unit_price is None ==> (entries[b].discount_pct matches Some(pct) ==> {
                let base = match item.selling_price {
                    Some(s) => s@,
                    None => zero(),
                };
                match minus((100, 0), pct@) {
                    Some(left) => match times(base, left) {
                        Some(product) => match over(product, (100, 0)) {
                            Some(q) => price == Some(Some((rounded(q, 2), lists[k].id))),
                            None => price is None,
                        },
                        None => price is None,
                    },
                    None => price is None,
                }
            })
        }),
{
    let list = lists[k];
    lemma_first_from(lists, list_id(list.id), 0);
    assert(list_id(list.id)(lists[k]));
    assert(first_where(lists, list_id(list.id)) == Some(list));
    lemma_window(list, currency, day);
    lemma_best(entries, list.id, item.id, qty, entries.len());
    assert(applies(entries[b], list.id, item.id, qty));
}

/// The register's list prices nothing outside its window, nor while it is not
/// active or in another currency.
pub proof fn lists_price_on_no_other_day(
    lists: Seq<PriceList>,
    entries: Seq<PriceListItem>,
    k: int,
    item: Item,
    qty: Num,
    currency: Seq<char>,
    day: Day,
)
    requires
        0 <= k < lists.len(),
        forall|j: int| 0 <= j < lists.len() && j != k ==> (#[trigger] lists[j]).id != lists[k].id,
        dated(lists[k]),
        is_date(day),
        lists[k].status@ != "active"@ || lists[k].currency@ != currency || !in_window(
            lists[k],
            day,
        ),
    ensures
        list_price(lists, entries, Some(lists[k].id), item, qty, currency, day) == Some(
            None::<(Num, u128)>,
        ),
{
    let list = lists[k];
    lemma_first_from(lists, list_id(list.id), 0);
    assert(list_id(list.id)(lists[k]));
    assert(first_where(lists, list_id(list.id)) == Some(list));
    lemma_window(list, currency, day);
}

/// A price of the register's list is on that list: some entry for the item, for no
/// larger quantity than the one sold, gives it. Without such an entry there is no
/// price.
pub proof fn list_prices_are_on_the_list(
    lists: Seq<PriceList>,
    entries: Seq<PriceListItem>,
    own: Option<u128>,
    item: Item,
    qty: Num,
    currency: Seq<char>,
    day: Day,
)
    requires
        list_price(lists, entries, own, item, qty, currency, day) matches Some(Some(_)),
    ensures
        ({
            let found = list_price(lists, entries, own, item, qty, currency, day)->0->0;
            &&& own == Some(found.1)
            &&& exists|b: int|
                0 <= b < entries.len() && (#[trigger] entries[b]).price_list_id == found.1
                    && entries[b].item_id == item.id && entries[b].uom_id is None && worth(
                    entries[b].min_qty@,
                ) <= worth(qty) && (entries[b].unit_price matches Some(p) ==> found.0 == p@)
        }),
{
    let found = list_price(lists, entries, own, item, qty, currency, day)->0->0;
    lemma_best(entries, found.1, item.id, qty, entries.len());
    let b = best_to(entries, found.1, item.id, qty, entries.len())->0;
    assert(entries[b].price_list_id == found.1);
}

} // verus!
