//! Batches (lots) and serial numbers.
//!
//! An item opts in per dimension. From then on a receipt names the lot that it
//! brings in, an issue names the lot that it takes and exactly which units
//! leave. Costing does not know lots: a lot's quantity is the sum of its
//! ledger rows.
//!
//! A unit is in stock at a warehouse until it is issued or scrapped; one that
//! comes back is in stock again.

use super::item::Item;
use super::stock::LedgerRow;
use crate::date::{
    day_number, earlier, is_date, lemma_day_number_orders, opt_day, shifted, Date, Day,
};
use crate::decimal::{normalized, opt, plain_text, worth, zero, Decimal, Num};
use crate::error::{in_range, refusal, Error, Refusal};
use crate::search::{find, find_viewed, first_from, first_where, kept, kept_to, lemma_first_from};
use crate::sums::{lemma_picked_push, lemma_total_push, picked, picked_to, sum_of, total};
use crate::text::{
    before, cat2, cat3, cat4, cat5, copy_text, digits, keep_trimmed, lemma_before_ranks, opt_text,
    quote, quoted, same, show_nat, sorts_before, texts, trim, trimmed, trimmed_unless_blank,
};
use crate::sort::{
    arrange, arranged, arranging_keeps_the_elements, arranging_sorts, lemma_arranged_members, ranks,
    Ordered,
};
use vstd::prelude::*;

verus! {

/// Where a unit with a serial number is in its life.
#[derive(Clone, Copy, Debug, PartialEq, Eq, Structural)]
pub enum SerialStatus {
    InStock,
    Issued,
    Scrapped,
}

pub open spec fn status_text(s: SerialStatus) -> Seq<char> {
    match s {
        SerialStatus::InStock => "in_stock"@,
        SerialStatus::Issued => "issued"@,
        SerialStatus::Scrapped => "scrapped"@,
    }
}

impl SerialStatus {
    pub fn as_str(self) -> (r: &'static str)
        ensures
            r@ == status_text(self),
    {
        match self {
            SerialStatus::InStock => "in_stock",
            SerialStatus::Issued => "issued",
            SerialStatus::Scrapped => "scrapped",
        }
    }

    /// The status a stored text stands for.
    pub fn parse(value: &str) -> (r: Result<SerialStatus, Error>)
        ensures
            match r {
                Ok(s) => value@ == status_text(s),
                Err(e) => (forall|s: SerialStatus| value@ != #[trigger] status_text(s)) && e@
                    == Refusal::Internal("unknown serial status "@ + quoted(value@)),
            },
    {
        if same(value, "in_stock") {
            Ok(SerialStatus::InStock)
        } else if same(value, "issued") {
            Ok(SerialStatus::Issued)
        } else if same(value, "scrapped") {
            Ok(SerialStatus::Scrapped)
        } else {
            let shown = quote(value);
            Err(Error::Internal(cat2("unknown serial status ", shown.as_str())))
        }
    }
}

/// No two statuses are written alike, so reading back what was written gives
/// the status that was written.
pub proof fn status_text_is_unambiguous(a: SerialStatus, b: SerialStatus)
    ensures
        status_text(a) == status_text(b) ==> a == b,
{
    reveal_strlit("in_stock");
    reveal_strlit("issued");
    reveal_strlit("scrapped");
    assert("in_stock"@[1] == 'n');
    assert("issued"@[1] == 's');
    assert("scrapped"@[1] == 'c');
}

// ---------------------------------------------------------------------------
// Batches
// ---------------------------------------------------------------------------

/// A batch (lot).
#[derive(Debug)]
pub struct Batch {
    pub id: u128,
    pub item_id: u128,
    pub batch_no: String,
    pub manufactured_on: Option<Date>,
    pub expires_on: Option<Date>,
    pub supplier_batch_no: Option<String>,
    pub is_active: bool,
}

pub open spec fn lot(item_id: u128, batch_no: Seq<char>) -> spec_fn(Batch) -> bool {
    |b: Batch| b.item_id == item_id && b.batch_no@ == batch_no
}

fn position_of_lot(batches: &Vec<Batch>, item_id: u128, batch_no: &str) -> (r: Option<usize>)
    ensures
        match r {
            Some(i) => i < batches@.len() && first_where(batches@, lot(item_id, batch_no@)) == Some(
                batches@[i as int],
            ),
            None => first_where(batches@, lot(item_id, batch_no@)) is None,
        },
{
    find(batches, Ghost(lot(item_id, batch_no@)), |x: &Batch| -> (b: bool)
        ensures
            b == lot(item_id, batch_no@)(*x),
        { x.item_id == item_id && same(x.batch_no.as_str(), batch_no) })
}

/// The lot that a receipt goes into.
#[derive(Debug)]
pub enum Lot {
    /// One that exists, and keeps its dates.
    Existing(u128),
    /// One that the receipt creates.
    New(Batch),
}

/// A date that lies a number of days ahead, where a number is given. The outer
/// level is absent where it lies beyond the calendar.
pub open spec fn ahead(from: Day, days: Option<i32>) -> Option<Option<Day>> {
    match days {
        None => Some(None),
        Some(n) => match shifted(from, n as int) {
            Some(d) => Some(Some(d)),
            None => None,
        },
    }
}

fn days_ahead(from: Date, days: Option<i32>) -> (r: Result<Option<Date>, Error>)
    ensures
        match r {
            Ok(d) => ahead(from@, days) == Some(opt_day(d)),
            Err(e) => ahead(from@, days) is None && e@ == Refusal::Overflow,
        },
{
    match days {
        None => Ok(None),
        Some(n) => match from.plus_days(n) {
            Some(d) => Ok(Some(d)),
            None => Err(Error::Overflow),
        },
    }
}

/// The lot with that number of the item, or a new one: its expiry follows from
/// the item's shelf life and the day of the receipt. `id` is the id that a new
/// lot gets.
pub fn find_or_create_batch(
    batches: &Vec<Batch>,
    item: &Item,
    batch_no: &str,
    received_on: Date,
    supplier_batch_no: Option<String>,
    id: u128,
) -> (r: Result<Lot, Error>)
    ensures
        ({
            let no = trimmed(batch_no@);
            let known = first_where(batches@, lot(item.id, no));
            if no.len() == 0 {
                refusal(r) == Some(
                    Refusal::Validation(
                        "item "@ + item.sku@
                            + " tracks batches; the batch number must not be blank"@,
                    ),
                )
            } else if known is Some {
                r == Ok::<Lot, Error>(Lot::Existing(known->0.id))
            } else if ahead(received_on@, item.shelf_life_days) is None {
                refusal(r) == Some(Refusal::Overflow)
            } else {
                &&& r is Ok
                &&& r->Ok_0 is New
                &&& r->Ok_0->New_0.id == id
                &&& r->Ok_0->New_0.item_id == item.id
                &&& r->Ok_0->New_0.batch_no@ == no
                &&& r->Ok_0->New_0.manufactured_on is None
                &&& Some(opt_day(r->Ok_0->New_0.expires_on)) == ahead(
                    received_on@,
                    item.shelf_life_days,
                )
                &&& opt_text(r->Ok_0->New_0.supplier_batch_no) == trimmed_unless_blank(
                    opt_text(supplier_batch_no),
                )
                &&& r->Ok_0->New_0.is_active
            }
        }),
{
    let no = trim(batch_no);
    if no.as_str().unicode_len() == 0 {
        return Err(
            Error::Validation(
                cat3(
                    "item ",
                    item.sku.as_str(),
                    " tracks batches; the batch number must not be blank",
                ),
            ),
        );
    }
    if let Some(i) = position_of_lot(batches, item.id, no.as_str()) {
        return Ok(Lot::Existing(batches[i].id));
    }
    let expires_on = days_ahead(received_on, item.shelf_life_days)?;
    Ok(
        Lot::New(
            Batch {
                id,
                item_id: item.id,
                batch_no: no,
                manufactured_on: None,
                expires_on,
                supplier_batch_no: keep_trimmed(supplier_batch_no),
                is_active: true,
            },
        ),
    )
}

/// The lot with that number of the item, for movements that take stock out.
pub fn find_batch<'a>(batches: &'a Vec<Batch>, item: &Item, batch_no: &str) -> (r: Result<
    &'a Batch,
    Error,
>)
    ensures
        match first_where(batches@, lot(item.id, trimmed(batch_no@))) {
            Some(b) => r is Ok && *r->Ok_0 == b,
            None => refusal(r) == Some(
                Refusal::Validation(
                    "item "@ + item.sku@ + " has no batch "@ + quoted(trimmed(batch_no@)),
                ),
            ),
        },
{
    let no = trim(batch_no);
    match position_of_lot(batches, item.id, no.as_str()) {
        Some(i) => Ok(&batches[i]),
        None => {
            let shown = quote(no.as_str());
            Err(
                Error::Validation(
                    cat4("item ", item.sku.as_str(), " has no batch ", shown.as_str()),
                ),
            )
        },
    }
}

// ---------------------------------------------------------------------------
// Serial names
// ---------------------------------------------------------------------------

/// The names without the white space around them.
pub open spec fn trimmed_all(names: Seq<Seq<char>>) -> Seq<Seq<char>> {
    names.map_values(|s: Seq<char>| trimmed(s))
}

pub open spec fn says_something() -> spec_fn(Seq<char>) -> bool {
    |s: Seq<char>| s.len() > 0
}

/// The names that are not blank, without the white space around them.
pub open spec fn names_given(names: Seq<Seq<char>>) -> Seq<Seq<char>> {
    kept(trimmed_all(names), says_something())
}

/// Check the serial names of a line against its quantity: one distinct name
/// per unit.
pub fn check_serial_names(item: &Item, qty: Decimal, names: &Vec<String>) -> (r: Result<
    Vec<String>,
    Error,
>)
    ensures
        ({
            let all = names_given(texts(names@));
            if worth((all.len() as int, 0nat)) != worth(qty@) {
                refusal(r) == Some(
                    Refusal::Validation(
                        "item "@ + item.sku@ + " tracks serial numbers: the line moves "@
                            + plain_text(normalized(qty@)) + " but names "@ + digits(all.len())
                            + " serials"@,
                    ),
                )
            } else if !all.no_duplicates() {
                refusal(r) == Some(
                    Refusal::Validation(
                        "item "@ + item.sku@ + ": a serial number is listed twice on one line"@,
                    ),
                )
            } else {
                r is Ok && texts(r->Ok_0@) == all
            }
        }),
{
    let ghost given = texts(names@);
    let mut out: Vec<String> = Vec::new();
    let mut i: usize = 0;
    while i < names.len()
        invariant
            i <= names.len(),
            given == texts(names@),
            texts(out@) == kept_to(trimmed_all(given), says_something(), i as nat),
            out@.len() <= i,
        decreases names.len() - i,
    {
        assert(given[i as int] == names@[i as int]@);
        let name = trim(names[i].as_str());
        if name.as_str().unicode_len() != 0 {
            let ghost before = out@;
            out.push(name);
            assert(texts(out@) =~= texts(before).push(name@));
        }
        i = i + 1;
    }
    let ghost all = names_given(given);
    assert(out@.len() == all.len());
    let count = Decimal::from_count(out.len());
    if !count.equals(&qty) {
        let moved = qty.normalize().text();
        let count_text = show_nat(out.len() as u64);
        let head = cat4(
            "item ",
            item.sku.as_str(),
            " tracks serial numbers: the line moves ",
            moved.as_str(),
        );
        return Err(
            Error::Validation(cat4(head.as_str(), " but names ", count_text.as_str(), " serials")),
        );
    }
    let mut a: usize = 0;
    while a < out.len()
        invariant
            a <= out.len(),
            given == texts(names@),
            all == names_given(given),
            texts(out@) == all,
            worth((all.len() as int, 0nat)) == worth(qty@),
            forall|x: int, y: int|
                0 <= x < a && x < y < all.len() ==> #[trigger] all[x] != #[trigger] all[y],
        decreases out.len() - a,
    {
        let mut b: usize = a + 1;
        while b < out.len()
            invariant
                a < out.len(),
                a < b <= out.len(),
                given == texts(names@),
                all == names_given(given),
                texts(out@) == all,
                worth((all.len() as int, 0nat)) == worth(qty@),
                forall|y: int| a < y < b ==> all[a as int] != #[trigger] all[y],
            decreases out.len() - b,
        {
            assert(all[a as int] == out@[a as int]@);
            assert(all[b as int] == out@[b as int]@);
            if same(out[a].as_str(), out[b].as_str()) {
                assert(!all.no_duplicates());
                return Err(
                    Error::Validation(
                        cat3(
                            "item ",
                            item.sku.as_str(),
                            ": a serial number is listed twice on one line",
                        ),
                    ),
                );
            }
            b = b + 1;
        }
        a = a + 1;
    }
    assert(all.no_duplicates());
    Ok(out)
}

// ---------------------------------------------------------------------------
// Serial units
// ---------------------------------------------------------------------------

/// A unit with a serial number.
#[derive(Debug)]
pub struct Serial {
    pub id: u128,
    pub item_id: u128,
    pub serial_no: String,
    pub batch_id: Option<u128>,
    pub warehouse_id: Option<u128>,
    pub status: SerialStatus,
    pub warranty_until: Option<Date>,
}

/// What a unit says.
pub struct Unit {
    pub id: u128,
    pub item_id: u128,
    pub serial_no: Seq<char>,
    pub batch_id: Option<u128>,
    pub warehouse_id: Option<u128>,
    pub status: SerialStatus,
    pub warranty_until: Option<Day>,
}

impl View for Serial {
    type V = Unit;

    open spec fn view(&self) -> Unit {
        Unit {
            id: self.id,
            item_id: self.item_id,
            serial_no: self.serial_no@,
            batch_id: self.batch_id,
            warehouse_id: self.warehouse_id,
            status: self.status,
            warranty_until: opt_day(self.warranty_until),
        }
    }
}

pub open spec fn units(serials: Seq<Serial>) -> Seq<Unit> {
    serials.map_values(|s: Serial| s@)
}

pub open spec fn named(item_id: u128, name: Seq<char>) -> spec_fn(Unit) -> bool {
    |u: Unit| u.item_id == item_id && u.serial_no == name
}

/// The place of the unit with that name.
pub open spec fn place(held: Seq<Unit>, item_id: u128, name: Seq<char>) -> Option<int> {
    first_from(held, named(item_id, name), 0)
}

/// What came of a step: the units as they are now, or why it was refused.
pub type Step = Result<Seq<Unit>, Refusal>;

/// Bringing one unit in: a new one is created, one that comes back must not be
/// in stock already.
pub open spec fn brought_in(
    held: Seq<Unit>,
    item: Item,
    warehouse: u128,
    batch: Option<u128>,
    name: Seq<char>,
    received_on: Day,
    id: u128,
) -> Step {
    match place(held, item.id, name) {
        Some(i) => if held[i].status == SerialStatus::InStock {
            Err(
                Refusal::Validation(
                    "serial "@ + name + " of "@ + item.sku@ + " is already in stock"@,
                ),
            )
        } else {
            Ok(
                held.update(
                    i,
                    Unit {
                        status: SerialStatus::InStock,
                        warehouse_id: Some(warehouse),
                        batch_id: if batch is Some {
                            batch
                        } else {
                            held[i].batch_id
                        },
                        ..held[i]
                    },
                ),
            )
        },
        None => match ahead(received_on, item.warranty_days) {
            None => Err(Refusal::Overflow),
            Some(warranty_until) => Ok(
                held.push(
                    Unit {
                        id,
                        item_id: item.id,
                        serial_no: name,
                        batch_id: batch,
                        warehouse_id: Some(warehouse),
                        status: SerialStatus::InStock,
                        warranty_until,
                    },
                ),
            ),
        },
    }
}

/// Why a unit cannot be taken from a warehouse, where it cannot.
pub open spec fn absent(held: Seq<Unit>, item: Item, warehouse: u128, name: Seq<char>) -> Option<
    Refusal,
> {
    match place(held, item.id, name) {
        None => Some(
            Refusal::Validation("item "@ + item.sku@ + " has no serial "@ + quoted(name)),
        ),
        Some(i) => if held[i].status != SerialStatus::InStock || held[i].warehouse_id != Some(
            warehouse,
        ) {
            Some(
                Refusal::Validation(
                    "serial "@ + name + " of "@ + item.sku@
                        + " is not in stock at this warehouse"@,
                ),
            )
        } else {
            None
        },
    }
}

/// Taking one unit out.
pub open spec fn taken_out(
    held: Seq<Unit>,
    item: Item,
    warehouse: u128,
    name: Seq<char>,
    to: SerialStatus,
) -> Step {
    match absent(held, item, warehouse, name) {
        Some(r) => Err(r),
        None => {
            let i = place(held, item.id, name)->0;
            Ok(held.update(i, Unit { status: to, ..held[i] }))
        },
    }
}

/// Moving one unit to another warehouse.
pub open spec fn moved(
    held: Seq<Unit>,
    item: Item,
    from: u128,
    to: u128,
    name: Seq<char>,
) -> Step {
    match absent(held, item, from, name) {
        Some(r) => Err(r),
        None => {
            let i = place(held, item.id, name)->0;
            Ok(held.update(i, Unit { warehouse_id: Some(to), ..held[i] }))
        },
    }
}

/// The units after the first `n` names, and the first refusal where there was
/// one: names after it are not looked at.
pub struct Run {
    pub held: Seq<Unit>,
    pub refused: Option<Refusal>,
}

pub open spec fn stepped(before: Run, step: Step) -> Run {
    if before.refused is Some {
        before
    } else {
        match step {
            Ok(held) => Run { held, refused: None },
            Err(r) => Run { held: before.held, refused: Some(r) },
        }
    }
}

pub open spec fn run_in(
    held: Seq<Unit>,
    item: Item,
    warehouse: u128,
    batch: Option<u128>,
    names: Seq<Seq<char>>,
    received_on: Day,
    ids: Seq<u128>,
    n: nat,
) -> Run
    decreases n,
{
    if n == 0 {
        Run { held, refused: None }
    } else {
        let before = run_in(held, item, warehouse, batch, names, received_on, ids, (n - 1) as nat);
        stepped(
            before,
            brought_in(
                before.held,
                item,
                warehouse,
                batch,
                names[n - 1],
                received_on,
                ids[n - 1],
            ),
        )
    }
}

pub open spec fn run_out(
    held: Seq<Unit>,
    item: Item,
    warehouse: u128,
    names: Seq<Seq<char>>,
    to: SerialStatus,
    n: nat,
) -> Run
    decreases n,
{
    if n == 0 {
        Run { held, refused: None }
    } else {
        let before = run_out(held, item, warehouse, names, to, (n - 1) as nat);
        stepped(before, taken_out(before.held, item, warehouse, names[n - 1], to))
    }
}

pub open spec fn run_move(
    held: Seq<Unit>,
    item: Item,
    from: u128,
    to: u128,
    names: Seq<Seq<char>>,
    n: nat,
) -> Run
    decreases n,
{
    if n == 0 {
        Run { held, refused: None }
    } else {
        let before = run_move(held, item, from, to, names, (n - 1) as nat);
        stepped(before, moved(before.held, item, from, to, names[n - 1]))
    }
}

proof fn lemma_in_stops(
    held: Seq<Unit>,
    item: Item,
    warehouse: u128,
    batch: Option<u128>,
    names: Seq<Seq<char>>,
    received_on: Day,
    ids: Seq<u128>,
    i: nat,
    n: nat,
)
    requires
        i <= n,
        run_in(held, item, warehouse, batch, names, received_on, ids, i).refused is Some,
    ensures
        run_in(held, item, warehouse, batch, names, received_on, ids, n) == run_in(
            held,
            item,
            warehouse,
            batch,
            names,
            received_on,
            ids,
            i,
        ),
    decreases n,
{
    if i < n {
        lemma_in_stops(held, item, warehouse, batch, names, received_on, ids, i, (n - 1) as nat);
    }
}

proof fn lemma_out_stops(
    held: Seq<Unit>,
    item: Item,
    warehouse: u128,
    names: Seq<Seq<char>>,
    to: SerialStatus,
    i: nat,
    n: nat,
)
    requires
        i <= n,
        run_out(held, item, warehouse, names, to, i).refused is Some,
    ensures
        run_out(held, item, warehouse, names, to, n) == run_out(
            held,
            item,
            warehouse,
            names,
            to,
            i,
        ),
    decreases n,
{
    if i < n {
        lemma_out_stops(held, item, warehouse, names, to, i, (n - 1) as nat);
    }
}

proof fn lemma_move_stops(
    held: Seq<Unit>,
    item: Item,
    from: u128,
    to: u128,
    names: Seq<Seq<char>>,
    i: nat,
    n: nat,
)
    requires
        i <= n,
        run_move(held, item, from, to, names, i).refused is Some,
    ensures
        run_move(held, item, from, to, names, n) == run_move(held, item, from, to, names, i),
    decreases n,
{
    if i < n {
        lemma_move_stops(held, item, from, to, names, i, (n - 1) as nat);
    }
}

fn position_of_serial(serials: &Vec<Serial>, item_id: u128, name: &str) -> (r: Option<usize>)
    ensures
        match r {
            Some(i) => i < serials@.len() && place(units(serials@), item_id, name@) == Some(
                i as int,
            ),
            None => place(units(serials@), item_id, name@) is None,
        },
{
    find_viewed(serials, Ghost(named(item_id, name@)), |x: &Serial| -> (b: bool)
        ensures
            b == named(item_id, name@)(x@),
        { x.item_id == item_id && same(x.serial_no.as_str(), name) })
}

fn in_stock_at(serials: &Vec<Serial>, item: &Item, warehouse: u128, name: &str) -> (r: Result<
    usize,
    Error,
>)
    ensures
        refusal(r) == absent(units(serials@), *item, warehouse, name@),
        r matches Ok(i) ==> i < serials@.len() && place(units(serials@), item.id, name@) == Some(
            i as int,
        ),
{
    match position_of_serial(serials, item.id, name) {
        None => {
            let shown = quote(name);
            Err(
                Error::Validation(
                    cat4("item ", item.sku.as_str(), " has no serial ", shown.as_str()),
                ),
            )
        },
        Some(i) => {
            assert(units(serials@)[i as int] == serials@[i as int]@);
            let here = match serials[i].warehouse_id {
                Some(w) => w == warehouse,
                None => false,
            };
            if serials[i].status != SerialStatus::InStock || !here {
                return Err(
                    Error::Validation(
                        cat5(
                            "serial ",
                            name,
                            " of ",
                            item.sku.as_str(),
                            " is not in stock at this warehouse",
                        ),
                    ),
                );
            }
            Ok(i)
        },
    }
}

/// Bring units into stock at a warehouse (receipt, adjustment up, reversal of
/// an issue), name by name; the first refusal stops. `ids` are the ids that
/// new units get. The ids of the units touched come back, in order.
pub fn serials_in(
    serials: &mut Vec<Serial>,
    item: &Item,
    warehouse: u128,
    batch: Option<u128>,
    names: &Vec<String>,
    received_on: Date,
    ids: &Vec<u128>,
) -> (r: Result<Vec<u128>, Error>)
    requires
        ids@.len() >= names@.len(),
    ensures
        ({
            let run = run_in(
                units(old(serials)@),
                *item,
                warehouse,
                batch,
                texts(names@),
                received_on@,
                ids@,
                names@.len(),
            );
            &&& units(final(serials)@) == run.held
            &&& refusal(r) == run.refused
            &&& r matches Ok(touched) ==> touched@.len() == names@.len() && forall|k: int|
                0 <= k < names@.len() ==> Some(#[trigger] touched@[k]) == unit_id(
                    run.held,
                    item.id,
                    names@[k]@,
                )
        }),
{
    let ghost start = units(serials@);
    let ghost given = texts(names@);
    let ghost total = names@.len();
    let mut touched: Vec<u128> = Vec::new();
    let mut n: usize = 0;
    while n < names.len()
        invariant
            n <= names.len(),
            ids@.len() >= names@.len(),
            start == units(old(serials)@),
            given == texts(names@),
            total == names@.len(),
            run_in(start, *item, warehouse, batch, given, received_on@, ids@, n as nat) == (Run {
                held: units(serials@),
                refused: None,
            }),
            touched@.len() == n,
            forall|k: int|
                0 <= k < n ==> Some(#[trigger] touched@[k]) == unit_id(
                    units(serials@),
                    item.id,
                    names@[k]@,
                ),
        decreases names.len() - n,
    {
        let name = &names[n];
        assert(given[n as int] == name@);
        let ghost before = serials@;
        let ghost held = units(before);
        match position_of_serial(serials, item.id, name.as_str()) {
            Some(i) => {
                assert(held[i as int] == before[i as int]@);
                if serials[i].status == SerialStatus::InStock {
                    proof {
                        lemma_in_stops(
                            start,
                            *item,
                            warehouse,
                            batch,
                            given,
                            received_on@,
                            ids@,
                            (n + 1) as nat,
                            total,
                        );
                    }
                    return Err(
                        Error::Validation(
                            cat5(
                                "serial ",
                                name.as_str(),
                                " of ",
                                item.sku.as_str(),
                                " is already in stock",
                            ),
                        ),
                    );
                }
                let id: u128 = serials[i].id;
                serials[i].status = SerialStatus::InStock;
                serials[i].warehouse_id = Some(warehouse);
                if batch.is_some() {
                    serials[i].batch_id = batch;
                }
                assert(units(serials@) =~= held.update(i as int, serials@[i as int]@));
                touched.push(id);
                proof {
                    lemma_ids_kept(held, i as int, serials@[i as int]@);
                    lemma_first_from(held, named(item.id, name@), 0);
                }
            },
            None => {
                let warranty_until = match days_ahead(received_on, item.warranty_days) {
                    Ok(d) => d,
                    Err(e) => {
                        proof {
                            lemma_in_stops(
                                start,
                                *item,
                                warehouse,
                                batch,
                                given,
                                received_on@,
                                ids@,
                                (n + 1) as nat,
                                total,
                            );
                        }
                        return Err(e);
                    },
                };
                let new = Serial {
                    id: ids[n],
                    item_id: item.id,
                    serial_no: name.clone(),
                    batch_id: batch,
                    warehouse_id: Some(warehouse),
                    status: SerialStatus::InStock,
                    warranty_until,
                };
                touched.push(ids[n]);
                serials.push(new);
                assert(units(serials@) =~= held.push(new@));
                proof {
                    lemma_ids_grow(held, new@);
                    lemma_first_from(units(serials@), named(item.id, name@), 0);
                    lemma_first_from(held, named(item.id, name@), 0);
                    assert(named(item.id, name@)(units(serials@)[held.len() as int]));
                    let at = place(units(serials@), item.id, name@)->0;
                    if at < held.len() {
                        assert(held[at] == units(serials@)[at]);
                    }
                }
            },
        }
        n = n + 1;
    }
    Ok(touched)
}

/// The id of the unit with that name.
pub open spec fn unit_id(held: Seq<Unit>, item_id: u128, name: Seq<char>) -> Option<u128> {
    match place(held, item_id, name) {
        Some(i) => Some(held[i].id),
        None => None,
    }
}

/// Changing a unit without renaming it leaves the ids where they were.
proof fn lemma_ids_kept(held: Seq<Unit>, i: int, new: Unit)
    requires
        0 <= i < held.len(),
        new.id == held[i].id,
        new.item_id == held[i].item_id,
        new.serial_no == held[i].serial_no,
    ensures
        forall|item_id: u128, name: Seq<char>|
            #[trigger] unit_id(held.update(i, new), item_id, name) == unit_id(held, item_id, name),
        forall|item_id: u128, name: Seq<char>|
            #[trigger] place(held.update(i, new), item_id, name) == place(held, item_id, name),
{
    let after = held.update(i, new);
    assert forall|item_id: u128, name: Seq<char>| #[trigger] place(after, item_id, name) == place(
        held,
        item_id,
        name,
    ) by {
        let p = named(item_id, name);
        lemma_first_from(held, p, 0);
        lemma_first_from(after, p, 0);
        assert forall|j: int| 0 <= j < held.len() implies p(held[j]) == p(#[trigger] after[j]) by {}
        match first_from(held, p, 0) {
            Some(a) => {
                assert(p(after[a]));
                let b = first_from(after, p, 0)->0;
                assert(p(held[b]));
            },
            None => {
                if first_from(after, p, 0) is Some {
                    let b = first_from(after, p, 0)->0;
                    assert(p(held[b]));
                }
            },
        }
    }
    assert forall|item_id: u128, name: Seq<char>| #[trigger]
        unit_id(after, item_id, name) == unit_id(held, item_id, name) by {
        assert(place(after, item_id, name) == place(held, item_id, name));
        lemma_first_from(held, named(item_id, name), 0);
    }
}

/// A unit that is added hides none that was there.
proof fn lemma_ids_grow(held: Seq<Unit>, new: Unit)
    ensures
        forall|item_id: u128, name: Seq<char>|
            unit_id(held, item_id, name) is Some ==> #[trigger] unit_id(
                held.push(new),
                item_id,
                name,
            ) == unit_id(held, item_id, name),
{
    let after = held.push(new);
    assert forall|item_id: u128, name: Seq<char>|
        unit_id(held, item_id, name) is Some implies #[trigger] unit_id(after, item_id, name)
        == unit_id(held, item_id, name) by {
        let p = named(item_id, name);
        lemma_first_from(held, p, 0);
        lemma_first_from(after, p, 0);
        let a = first_from(held, p, 0)->0;
        assert(after[a] == held[a]);
        let b = first_from(after, p, 0)->0;
        assert(b <= a);
        assert(after[b] == held[b]);
    }
}

/// Take units out of stock from a warehouse: issued where they leave through
/// an issue, scrapped where they are counted down or their receipt is reversed.
pub fn serials_out(
    serials: &mut Vec<Serial>,
    item: &Item,
    warehouse: u128,
    names: &Vec<String>,
    to_status: SerialStatus,
) -> (r: Result<Vec<u128>, Error>)
    ensures
        ({
            let run = run_out(
                units(old(serials)@),
                *item,
                warehouse,
                texts(names@),
                to_status,
                names@.len(),
            );
            &&& units(final(serials)@) == run.held
            &&& refusal(r) == run.refused
            &&& r matches Ok(touched) ==> touched@.len() == names@.len() && forall|k: int|
                0 <= k < names@.len() ==> Some(#[trigger] touched@[k]) == unit_id(
                    units(old(serials)@),
                    item.id,
                    names@[k]@,
                )
        }),
{
    let ghost start = units(serials@);
    let ghost given = texts(names@);
    let ghost total = names@.len();
    let mut touched: Vec<u128> = Vec::new();
    let mut n: usize = 0;
    while n < names.len()
        invariant
            n <= names.len(),
            start == units(old(serials)@),
            given == texts(names@),
            total == names@.len(),
            run_out(start, *item, warehouse, given, to_status, n as nat) == (Run {
                held: units(serials@),
                refused: None,
            }),
            forall|item_id: u128, name: Seq<char>|
                #[trigger] unit_id(units(serials@), item_id, name) == unit_id(start, item_id, name),
            touched@.len() == n,
            forall|k: int|
                0 <= k < n ==> Some(#[trigger] touched@[k]) == unit_id(start, item.id, names@[k]@),
        decreases names.len() - n,
    {
        let name = &names[n];
        assert(given[n as int] == name@);
        let ghost held = units(serials@);
        match in_stock_at(serials, item, warehouse, name.as_str()) {
            Err(e) => {
                proof {
                    lemma_out_stops(
                        start,
                        *item,
                        warehouse,
                        given,
                        to_status,
                        (n + 1) as nat,
                        total,
                    );
                }
                return Err(e);
            },
            Ok(i) => {
                assert(held[i as int] == serials@[i as int]@);
                touched.push(serials[i].id);
                assert(unit_id(held, item.id, name@) == Some(serials@[i as int].id));
                serials[i].status = to_status;
                assert(units(serials@) =~= held.update(i as int, serials@[i as int]@));
                proof {
                    lemma_ids_kept(held, i as int, serials@[i as int]@);
                }
            },
        }
        n = n + 1;
    }
    Ok(touched)
}

/// Move units between warehouses (a transfer, or its reversal).
pub fn serials_move(
    serials: &mut Vec<Serial>,
    item: &Item,
    from_warehouse: u128,
    to_warehouse: u128,
    names: &Vec<String>,
) -> (r: Result<Vec<u128>, Error>)
    ensures
        ({
            let run = run_move(
                units(old(serials)@),
                *item,
                from_warehouse,
                to_warehouse,
                texts(names@),
                names@.len(),
            );
            &&& units(final(serials)@) == run.held
            &&& refusal(r) == run.refused
            &&& r matches Ok(touched) ==> touched@.len() == names@.len() && forall|k: int|
                0 <= k < names@.len() ==> Some(#[trigger] touched@[k]) == unit_id(
                    units(old(serials)@),
                    item.id,
                    names@[k]@,
                )
        }),
{
    let ghost start = units(serials@);
    let ghost given = texts(names@);
    let ghost total = names@.len();
    let mut touched: Vec<u128> = Vec::new();
    let mut n: usize = 0;
    while n < names.len()
        invariant
            n <= names.len(),
            start == units(old(serials)@),
            given == texts(names@),
            total == names@.len(),
            run_move(start, *item, from_warehouse, to_warehouse, given, n as nat) == (Run {
                held: units(serials@),
                refused: None,
            }),
            forall|item_id: u128, name: Seq<char>|
                #[trigger] unit_id(units(serials@), item_id, name) == unit_id(start, item_id, name),
            touched@.len() == n,
            forall|k: int|
                0 <= k < n ==> Some(#[trigger] touched@[k]) == unit_id(start, item.id, names@[k]@),
        decreases names.len() - n,
    {
        let name = &names[n];
        assert(given[n as int] == name@);
        let ghost held = units(serials@);
        match in_stock_at(serials, item, from_warehouse, name.as_str()) {
            Err(e) => {
                proof {
                    lemma_move_stops(
                        start,
                        *item,
                        from_warehouse,
                        to_warehouse,
                        given,
                        (n + 1) as nat,
                        total,
                    );
                }
                return Err(e);
            },
            Ok(i) => {
                assert(held[i as int] == serials@[i as int]@);
                touched.push(serials[i].id);
                assert(unit_id(held, item.id, name@) == Some(serials@[i as int].id));
                serials[i].warehouse_id = Some(to_warehouse);
                assert(units(serials@) =~= held.update(i as int, serials@[i as int]@));
                proof {
                    lemma_ids_kept(held, i as int, serials@[i as int]@);
                }
            },
        }
        n = n + 1;
    }
    Ok(touched)
}

// ---------------------------------------------------------------------------
// Reading lots
// ---------------------------------------------------------------------------

/// One lot's position.
#[derive(Debug)]
pub struct BatchLevelView {
    pub batch_id: u128,
    pub batch_no: String,
    pub expires_on: Option<Date>,
    pub supplier_batch_no: Option<String>,
    pub on_hand: Decimal,
}

/// Whether a row of the stock ledger moves a lot, in the warehouse that is
/// asked for.
pub open spec fn of_lot(item: u128, warehouse: Option<u128>, batch: u128) -> spec_fn(
    LedgerRow,
) -> bool {
    |r: LedgerRow|
        {
            &&& r.item_id == item
            &&& r.batch_id == Some(batch)
            &&& warehouse matches Some(w) ==> r.warehouse_id == w
        }
}

pub open spec fn its_quantity() -> spec_fn(LedgerRow) -> Num {
    |r: LedgerRow| r.qty_delta@
}

/// What the stock ledger says is on hand of a lot.
pub open spec fn lot_on_hand(
    rows: Seq<LedgerRow>,
    item: u128,
    warehouse: Option<u128>,
    batch: u128,
) -> Option<Num> {
    total(picked(rows, of_lot(item, warehouse, batch), its_quantity()))
}

/// What is on hand of a lot: in a warehouse, or in all of them.
pub fn batch_on_hand(rows: &Vec<LedgerRow>, item: u128, warehouse: Option<u128>, batch: u128) -> (r:
    Result<Decimal, Error>)
    ensures
        match lot_on_hand(rows@, item, warehouse, batch) {
            Some(n) => r is Ok && r->Ok_0@ == n,
            None => refusal(r) == Some(Refusal::Overflow),
        },
{
    let ghost p = of_lot(item, warehouse, batch);
    let mut sum: Option<Decimal> = Some(Decimal::zero());
    let mut i: usize = 0;
    while i < rows.len()
        invariant
            i <= rows.len(),
            p == of_lot(item, warehouse, batch),
            opt(sum) == total(picked_to(rows@, p, its_quantity(), i as nat)),
        decreases rows.len() - i,
    {
        let row = &rows[i];
        let here = match warehouse {
            Some(w) => row.warehouse_id == w,
            None => true,
        };
        let of_batch = match row.batch_id {
            Some(b) => b == batch,
            None => false,
        };
        if row.item_id == item && of_batch && here {
            proof {
                assert(p(rows@[i as int]));
                lemma_total_push(picked_to(rows@, p, its_quantity(), i as nat), row.qty_delta@);
            }
            sum = match sum {
                Some(s) => s.checked_add(row.qty_delta),
                None => None,
            };
        } else {
            assert(!p(rows@[i as int]));
        }
        i = i + 1;
    }
    in_range(sum)
}

/// Those of the first `n` lots that are shown of an item, each with what is on
/// hand: an exhausted one only where it is asked for. Nothing where a quantity
/// leaves the range.
pub open spec fn shown_to(
    batches: Seq<Batch>,
    rows: Seq<LedgerRow>,
    item: u128,
    warehouse: Option<u128>,
    include_empty: bool,
    n: nat,
) -> Option<Seq<(Batch, Num)>>
    decreases n,
{
    if n == 0 {
        Some(Seq::empty())
    } else {
        let b = batches[n - 1];
        match shown_to(batches, rows, item, warehouse, include_empty, (n - 1) as nat) {
            None => None,
            Some(rest) => if b.item_id != item {
                Some(rest)
            } else {
                match lot_on_hand(rows, item, warehouse, b.id) {
                    None => None,
                    Some(q) => if include_empty || q.0 != 0 {
                        Some(rest.push((b, q)))
                    } else {
                        Some(rest)
                    },
                }
            },
        }
    }
}

proof fn lemma_shown_stops(
    batches: Seq<Batch>,
    rows: Seq<LedgerRow>,
    item: u128,
    warehouse: Option<u128>,
    include_empty: bool,
    i: nat,
    n: nat,
)
    requires
        i <= n,
        shown_to(batches, rows, item, warehouse, include_empty, i) is None,
    ensures
        shown_to(batches, rows, item, warehouse, include_empty, n) is None,
    decreases n,
{
    if i < n {
        lemma_shown_stops(batches, rows, item, warehouse, include_empty, i, (n - 1) as nat);
    }
}

pub open spec fn shows_lot(v: BatchLevelView, lot: (Batch, Num)) -> bool {
    &&& v.batch_id == lot.0.id
    &&& v.batch_no@ == lot.0.batch_no@
    &&& v.expires_on == lot.0.expires_on
    &&& opt_text(v.supplier_batch_no) == opt_text(lot.0.supplier_batch_no)
    &&& v.on_hand@ == lot.1
}

pub open spec fn shows_lots(list: Seq<BatchLevelView>, lots: Seq<(Batch, Num)>) -> bool {
    &&& list.len() == lots.len()
    &&& forall|i: int| 0 <= i < list.len() ==> shows_lot(#[trigger] list[i], lots[i])
}

/// Whether a lot goes out before another: the one that expires first, those that
/// never do last, and of one day the one whose number sorts first.
pub open spec fn leaves_first(
    expires: Option<Day>,
    batch_no: Seq<char>,
    other_expires: Option<Day>,
    other_no: Seq<char>,
) -> bool {
    match (expires, other_expires) {
        (Some(x), Some(y)) => earlier(x, y) || (x == y && before(batch_no, other_no)),
        (Some(_), None) => true,
        (None, Some(_)) => false,
        (None, None) => before(batch_no, other_no),
    }
}

pub(crate) fn goes_out_first(
    expires: &Option<Date>,
    batch_no: &str,
    other_expires: &Option<Date>,
    other_no: &str,
) -> (r: bool)
    ensures
        r == leaves_first(opt_day(*expires), batch_no@, opt_day(*other_expires), other_no@),
{
    match (expires, other_expires) {
        (Some(x), Some(y)) => x.is_before(y) || (x.is_same(y) && sorts_before(batch_no, other_no)),
        (Some(_), None) => true,
        (None, Some(_)) => false,
        (None, None) => sorts_before(batch_no, other_no),
    }
}

impl Ordered for BatchLevelView {
    /// What expires first stands first.
    open spec fn precedes(a: Self, b: Self) -> bool {
        leaves_first(opt_day(a.expires_on), a.batch_no@, opt_day(b.expires_on), b.batch_no@)
    }

    fn goes_before(&self, other: &Self) -> (r: bool) {
        goes_out_first(
            &self.expires_on,
            self.batch_no.as_str(),
            &other.expires_on,
            other.batch_no.as_str(),
        )
    }
}

/// The lots of an item with what is on hand of each, in a warehouse or in all
/// of them: what expires first stands first.
pub fn item_batches(
    batches: &Vec<Batch>,
    rows: &Vec<LedgerRow>,
    item: u128,
    warehouse: Option<u128>,
    include_empty: bool,
) -> (r: Result<Vec<BatchLevelView>, Error>)
    ensures
        match shown_to(batches@, rows@, item, warehouse, include_empty, batches@.len()) {
            Some(lots) => r is Ok && exists|list: Seq<BatchLevelView>|
                #[trigger] shows_lots(list, lots) && r->Ok_0@ == arranged(list),
            None => refusal(r) == Some(Refusal::Overflow),
        },
{
    let mut out: Vec<BatchLevelView> = Vec::new();
    let mut i: usize = 0;
    while i < batches.len()
        invariant
            i <= batches.len(),
            shown_to(batches@, rows@, item, warehouse, include_empty, i as nat) matches Some(lots)
                && shows_lots(out@, lots),
        decreases batches.len() - i,
    {
        let b = &batches[i];
        proof {
            let n = (i + 1) as nat;
            if shown_to(batches@, rows@, item, warehouse, include_empty, n) is None {
                lemma_shown_stops(
                    batches@,
                    rows@,
                    item,
                    warehouse,
                    include_empty,
                    n,
                    batches@.len(),
                );
            }
        }
        if b.item_id == item {
            let on_hand = batch_on_hand(rows, item, warehouse, b.id)?;
            if include_empty || !on_hand.is_zero() {
                out.push(
                    BatchLevelView {
                        batch_id: b.id,
                        batch_no: b.batch_no.clone(),
                        expires_on: b.expires_on,
                        supplier_batch_no: copy_text(&b.supplier_batch_no),
                        on_hand,
                    },
                );
            }
        }
        i = i + 1;
    }
    Ok(arrange(out))
}

// ---------------------------------------------------------------------------
// Laws
// ---------------------------------------------------------------------------

/// A unit that was brought in can be taken out of the warehouse that it was
/// brought into.
pub proof fn what_comes_in_can_leave(
    held: Seq<Unit>,
    item: Item,
    warehouse: u128,
    batch: Option<u128>,
    name: Seq<char>,
    received_on: Day,
    id: u128,
)
    requires
        brought_in(held, item, warehouse, batch, name, received_on, id) is Ok,
    ensures
        absent(
            brought_in(held, item, warehouse, batch, name, received_on, id)->Ok_0,
            item,
            warehouse,
            name,
        ) is None,
{
    let after = brought_in(held, item, warehouse, batch, name, received_on, id)->Ok_0;
    let p = named(item.id, name);
    lemma_first_from(held, p, 0);
    lemma_first_from(after, p, 0);
    match place(held, item.id, name) {
        Some(i) => {
            lemma_ids_kept(held, i, after[i]);
            assert(after =~= held.update(i, after[i]));
        },
        None => {
            let last = held.len() as int;
            assert(p(after[last]));
            let at = first_from(after, p, 0)->0;
            if at < last {
                assert(after[at] == held[at]);
            }
        },
    }
}

/// A unit cannot leave twice: once it was issued or scrapped, taking it out
/// again is refused, from any warehouse.
pub proof fn what_left_cannot_leave_again(
    held: Seq<Unit>,
    item: Item,
    warehouse: u128,
    name: Seq<char>,
    to: SerialStatus,
    again: u128,
)
    requires
        to != SerialStatus::InStock,
        taken_out(held, item, warehouse, name, to) is Ok,
    ensures
        absent(taken_out(held, item, warehouse, name, to)->Ok_0, item, again, name) is Some,
{
    let i = place(held, item.id, name)->0;
    lemma_first_from(held, named(item.id, name), 0);
    lemma_ids_kept(held, i, Unit { status: to, ..held[i] });
}

/// A unit cannot come in twice: while it is in stock, bringing it in again is
/// refused.
pub proof fn what_is_in_stock_cannot_come_in(
    held: Seq<Unit>,
    item: Item,
    warehouse: u128,
    batch: Option<u128>,
    name: Seq<char>,
    received_on: Day,
    id: u128,
    at: u128,
)
    requires
        absent(held, item, at, name) is None,
    ensures
        brought_in(held, item, warehouse, batch, name, received_on, id) is Err,
{
}

/// A unit that left can come back.
pub proof fn what_left_can_come_back(
    held: Seq<Unit>,
    item: Item,
    warehouse: u128,
    batch: Option<u128>,
    name: Seq<char>,
    to: SerialStatus,
    received_on: Day,
    id: u128,
)
    requires
        to != SerialStatus::InStock,
        taken_out(held, item, warehouse, name, to) is Ok,
    ensures
        brought_in(
            taken_out(held, item, warehouse, name, to)->Ok_0,
            item,
            warehouse,
            batch,
            name,
            received_on,
            id,
        ) is Ok,
{
    let i = place(held, item.id, name)->0;
    lemma_first_from(held, named(item.id, name), 0);
    lemma_ids_kept(held, i, Unit { status: to, ..held[i] });
}

/// Moving a unit to another warehouse and back leaves all units as they were.
pub proof fn moving_back_undoes_moving(
    held: Seq<Unit>,
    item: Item,
    from: u128,
    to: u128,
    name: Seq<char>,
)
    requires
        moved(held, item, from, to, name) is Ok,
    ensures
        moved(moved(held, item, from, to, name)->Ok_0, item, to, from, name) == Ok::<
            Seq<Unit>,
            Refusal,
        >(held),
{
    let i = place(held, item.id, name)->0;
    lemma_first_from(held, named(item.id, name), 0);
    let once = held.update(i, Unit { warehouse_id: Some(to), ..held[i] });
    lemma_ids_kept(held, i, Unit { warehouse_id: Some(to), ..held[i] });
    assert(once.update(i, Unit { warehouse_id: Some(from), ..once[i] }) =~= held);
}

/// Lots have an order that ranks them.
proof fn lemma_lots_rank()
    ensures
        ranks::<BatchLevelView>(),
{
    assert forall|a: BatchLevelView, b: BatchLevelView| #[trigger]
        BatchLevelView::precedes(a, b) implies !BatchLevelView::precedes(b, a) by {
        lemma_before_ranks(a.batch_no@, b.batch_no@, a.batch_no@);
    }
    assert forall|a: BatchLevelView, b: BatchLevelView, c: BatchLevelView|
        #![trigger BatchLevelView::precedes(b, a), BatchLevelView::precedes(c, b)]
        !BatchLevelView::precedes(b, a) && !BatchLevelView::precedes(
            c,
            b,
        ) implies !BatchLevelView::precedes(c, a) by {
        lemma_before_ranks(a.batch_no@, b.batch_no@, c.batch_no@);
        lemma_before_ranks(b.batch_no@, c.batch_no@, a.batch_no@);
        lemma_before_ranks(c.batch_no@, a.batch_no@, b.batch_no@);
    }
}

/// What expires first stands first: of two lots the one that stands later expires no
/// earlier, and those that never expire stand last.
pub proof fn lots_stand_by_expiry(list: Seq<BatchLevelView>, i: int, j: int)
    requires
        forall|k: int|
            0 <= k < list.len() ==> ((#[trigger] list[k]).expires_on matches Some(d) ==> is_date(d@)),
        0 <= i < j < list.len(),
    ensures
        arranged(list).len() == list.len(),
        ({
            let a = arranged(list)[i].expires_on;
            let b = arranged(list)[j].expires_on;
            &&& b is Some ==> a is Some
            &&& a matches Some(x) ==> (b matches Some(y) ==> day_number(x@) <= day_number(y@))
        }),
{
    lemma_lots_rank();
    arranging_sorts(list);
    arranging_keeps_the_elements(list);
    lemma_arranged_members(list);
    let a = arranged(list)[i];
    let b = arranged(list)[j];
    assert(arranged(list).contains(a) && arranged(list).contains(b));
    assert(list.contains(a) && list.contains(b));
    assert(!BatchLevelView::precedes(b, a));
    if let Some(x) = a.expires_on {
        if let Some(y) = b.expires_on {
            lemma_day_number_orders(x@, y@);
        }
    }
}

/// What is on hand of a lot is the sum of its rows: one more row of the ledger changes it
/// by the row's quantity where the row is of that item and lot, and of the warehouse
/// that is asked for, or of any; no other row changes it.
pub proof fn lots_hold_what_their_rows_say(
    rows: Seq<LedgerRow>,
    row: LedgerRow,
    item: u128,
    warehouse: Option<u128>,
    batch: u128,
)
    ensures
        ({
            let before = lot_on_hand(rows, item, warehouse, batch);
            let after = lot_on_hand(rows.push(row), item, warehouse, batch);
            let own = row.item_id == item && row.batch_id == Some(batch) && (warehouse is None
                || warehouse == Some(row.warehouse_id));
            &&& lot_on_hand(Seq::empty(), item, warehouse, batch) == Some(zero())
            &&& own ==> after == sum_of(before, Some(row.qty_delta@))
            &&& !own ==> after == before
        }),
{
    let p = of_lot(item, warehouse, batch);
    lemma_picked_push(rows, row, p, its_quantity());
    lemma_total_push(picked(rows, p, its_quantity()), row.qty_delta@);
}

/// The lots of an item are all shown that hold anything, and with `include_empty` the
/// others too; no lot of another item is. Each shows what is on hand of it.
pub proof fn every_lot_that_holds_anything_is_shown(
    batches: Seq<Batch>,
    rows: Seq<LedgerRow>,
    item: u128,
    warehouse: Option<u128>,
    include_empty: bool,
    n: nat,
)
    requires
        n <= batches.len(),
        shown_to(batches, rows, item, warehouse, include_empty, n) is Some,
    ensures
        ({
            let lots = shown_to(batches, rows, item, warehouse, include_empty, n)->0;
            &&& forall|k: int|
                0 <= k < n && (#[trigger] batches[k]).item_id == item ==> (lot_on_hand(
                    rows,
                    item,
                    warehouse,
                    batches[k].id,
                ) matches Some(q) && (include_empty || q.0 != 0 ==> lots.contains(
                    (batches[k], q),
                )))
            &&& forall|j: int|
                0 <= j < lots.len() ==> (#[trigger] lots[j]).0.item_id == item && lot_on_hand(
                    rows,
                    item,
                    warehouse,
                    lots[j].0.id,
                ) == Some(lots[j].1) && (include_empty || lots[j].1.0 != 0)
        }),
    decreases n,
{
    if n > 0 {
        every_lot_that_holds_anything_is_shown(
            batches,
            rows,
            item,
            warehouse,
            include_empty,
            (n - 1) as nat,
        );
        let rest = shown_to(batches, rows, item, warehouse, include_empty, (n - 1) as nat)->0;
        let lots = shown_to(batches, rows, item, warehouse, include_empty, n)->0;
        assert forall|x: (Batch, Num)| rest.contains(x) implies lots.contains(x) by {
            let j = choose|j: int| 0 <= j < rest.len() && rest[j] == x;
            assert(lots[j] == x);
        }
        if batches[n - 1].item_id == item {
            let q = lot_on_hand(rows, item, warehouse, batches[n - 1].id)->0;
            if include_empty || q.0 != 0 {
                assert(lots.last() == (batches[n - 1], q));
            }
        }
    }
}

/// Shelf life and warranty run from the day of the receipt: a date so many days ahead is
/// that many days later in the calendar, and there is none where no number is given.
pub proof fn dates_ahead_count_days(from: Day, days: Option<i32>)
    ensures
        days is None ==> ahead(from, days) == Some(None::<Day>),
        days matches Some(n) ==> (ahead(from, days) matches Some(d) ==> d matches Some(e)
            && is_date(e) && day_number(e) == day_number(from) + n),
{
}

/// A unit that comes in for the first time is in stock at the warehouse, in the lot, and
/// under warranty from the day of the receipt; one that comes back keeps its
/// warranty, and its lot unless another is named. No other unit changes.
pub proof fn units_come_in_with_their_warranty(
    held: Seq<Unit>,
    item: Item,
    warehouse: u128,
    batch: Option<u128>,
    name: Seq<char>,
    received_on: Day,
    id: u128,
)
    requires
        brought_in(held, item, warehouse, batch, name, received_on, id) is Ok,
    ensures
        ({
            let after = brought_in(held, item, warehouse, batch, name, received_on, id)->Ok_0;
            let known = exists|i: int|
                0 <= i < held.len() && (#[trigger] held[i]).item_id == item.id && held[i].serial_no
                    == name;
            &&& !known ==> after.len() == held.len() + 1 && after.drop_last() == held && ({
                let u = after.last();
                &&& u.id == id && u.item_id == item.id && u.serial_no == name
                &&& u.status == SerialStatus::InStock
                &&& u.warehouse_id == Some(warehouse)
                &&& u.batch_id == batch
                &&& item.warranty_days is None ==> u.warranty_until is None
                &&& item.warranty_days matches Some(n) ==> (u.warranty_until matches Some(e)
                    && day_number(e) == day_number(received_on) + n)
            })
            &&& known ==> after.len() == held.len() && exists|k: int|
                0 <= k < held.len() && (#[trigger] held[k]).item_id == item.id && held[k].serial_no
                    == name && held[k].status != SerialStatus::InStock && after == held.update(
                    k,
                    after[k],
                ) && after[k].status == SerialStatus::InStock && after[k].warehouse_id == Some(
                    warehouse,
                ) && after[k].warranty_until == held[k].warranty_until && after[k].id == held[k].id
                    && after[k].batch_id == (if batch is Some {
                    batch
                } else {
                    held[k].batch_id
                })
        }),
{
    let after = brought_in(held, item, warehouse, batch, name, received_on, id)->Ok_0;
    let p = named(item.id, name);
    lemma_first_from(held, p, 0);
    match place(held, item.id, name) {
        Some(k) => {
            assert(p(held[k]));
            assert(held[k].item_id == item.id && held[k].serial_no == name);
            assert(after =~= held.update(k, after[k]));
        },
        None => {
            assert forall|i: int| 0 <= i < held.len() implies !((#[trigger] held[i]).item_id
                == item.id && held[i].serial_no == name) by {
                assert(!p(held[i]));
            }
            assert(after.drop_last() =~= held);
        },
    }
}

} // verus!
