//! The stock engine: the one place where stock quantities and values change.
//!
//! Costing is the moving average per item and warehouse. Unit costs carry six
//! decimals, ledger money two. An issue that empties a location flushes the
//! whole remaining value, so that zero quantity always means exactly zero
//! value.

use super::item::{Item, ItemType, Uom};
use crate::date::Date;
use crate::decimal::{
    abs, aligns, combined, larger, limit, max_places, minus, more_places, negated, normalized, opt,
    over, plain_text, plus, pow10, representable, rescaled, rounded, smaller, times, worth, zero,
    Decimal, Num,
};
use crate::error::{in_range, refusal, Error, Refusal};
use crate::sums::{
    exact_sum, lemma_cancels, lemma_combined_exact, lemma_combined_worth, lemma_pow10_positive,
    lemma_rescaled_grows, lemma_worth_negated, lemma_worth_rescaled, lemma_worth_sign, rounded_of,
    worth_of, worth_to,
};
use crate::text::{cat3, cat4, cat5, cat7};
use vstd::prelude::*;

verus! {

/// One row of the stock ledger. It never changes once it is written.
#[derive(Clone, Copy, Debug)]
pub struct LedgerRow {
    pub move_id: u128,
    pub move_line_id: u128,
    pub item_id: u128,
    pub warehouse_id: u128,
    pub batch_id: Option<u128>,
    pub entry_date: Date,
    pub qty_delta: Decimal,
    pub qty_after: Decimal,
    pub unit_cost: Decimal,
    pub value_delta: Decimal,
    pub value_after: Decimal,
}

/// What is held of one item in one warehouse.
#[derive(Clone, Copy, Debug)]
pub struct Level {
    pub item_id: u128,
    pub warehouse_id: u128,
    pub on_hand: Decimal,
    pub reserved: Decimal,
    pub on_order: Decimal,
    pub value: Decimal,
    pub reorder_level: Option<Decimal>,
    pub reorder_qty: Option<Decimal>,
}

/// What a level says.
pub struct Position {
    pub item_id: u128,
    pub warehouse_id: u128,
    pub on_hand: Num,
    pub reserved: Num,
    pub on_order: Num,
    pub value: Num,
    pub reorder_level: Option<Num>,
    pub reorder_qty: Option<Num>,
}

impl View for Level {
    type V = Position;

    open spec fn view(&self) -> Position {
        Position {
            item_id: self.item_id,
            warehouse_id: self.warehouse_id,
            on_hand: self.on_hand@,
            reserved: self.reserved@,
            on_order: self.on_order@,
            value: self.value@,
            reorder_level: opt(self.reorder_level),
            reorder_qty: opt(self.reorder_qty),
        }
    }
}

/// Ledger money is booked to two decimals.
pub open spec fn money(n: Num) -> Num {
    rounded(n, 2)
}

/// Unit costs carry six decimals, to limit the drift of the moving average.
pub open spec fn cost(n: Num) -> Num {
    rounded(n, 6)
}

pub fn round_money(v: Decimal) -> (r: Decimal)
    ensures
        r@ == money(v@),
{
    v.round_dp(2)
}

pub fn round_cost(v: Decimal) -> (r: Decimal)
    ensures
        r@ == cost(v@),
{
    v.round_dp(6)
}

/// The average cost of a quantity of some value; zero where there is none.
pub open spec fn average(value: Num, on_hand: Num) -> Option<Num> {
    if on_hand.0 == 0 {
        Some(zero())
    } else {
        rounded_of(over(value, on_hand), 6)
    }
}

/// The running average cost of a level (zero when it is empty).
pub fn level_average(level: &Level) -> (r: Result<Decimal, Error>)
    ensures
        match r {
            Ok(a) => average(level.value@, level.on_hand@) == Some(a@),
            Err(e) => average(level.value@, level.on_hand@) is None && e@ == Refusal::Overflow,
        },
{
    if level.on_hand.is_zero() {
        Ok(Decimal::zero())
    } else {
        let quotient = in_range(level.value.checked_div(level.on_hand))?;
        Ok(round_cost(quotient))
    }
}

/// A single stock effect.
#[derive(Clone, Copy, Debug)]
pub enum Movement {
    /// Stock in at a known cost (purchase receipt, opening stock, positive
    /// adjustment, transfer in at the issued cost).
    Receipt { qty: Decimal, unit_cost: Decimal },
    /// Stock out at the running average (issue, transfer out, negative
    /// adjustment). So much of it as `covered_by_reservation` consumes a
    /// reservation that the caller holds; the rest may only take stock that
    /// nobody holds.
    Issue { qty: Decimal, covered_by_reservation: Decimal },
}

/// What a movement says.
pub enum Flow {
    Receipt { qty: Num, unit_cost: Num },
    Issue { qty: Num, covered: Num },
}

impl View for Movement {
    type V = Flow;

    open spec fn view(&self) -> Flow {
        match self {
            Movement::Receipt { qty, unit_cost } => Flow::Receipt {
                qty: qty@,
                unit_cost: unit_cost@,
            },
            Movement::Issue { qty, covered_by_reservation } => Flow::Issue {
                qty: qty@,
                covered: covered_by_reservation@,
            },
        }
    }
}

/// What a movement does to a level.
pub struct Effect {
    pub qty_delta: Num,
    pub unit_cost: Num,
    pub value_delta: Num,
    pub reserved_after: Num,
    pub qty_after: Num,
    pub value_after: Num,
}

/// Why a quantity cannot move, where it cannot: it must be positive, and whole
/// where the unit knows no fractions.
pub open spec fn qty_refusal(qty: Num, sku: Seq<char>, fractional: bool, uom: Seq<char>) -> Option<
    Refusal,
> {
    if qty.0 <= 0 {
        Some(Refusal::Validation("quantity of "@ + sku + " must be positive"@))
    } else if !fractional && normalized(qty).1 > 0 {
        Some(
            Refusal::Validation(
                "item "@ + sku + " is stocked in whole "@ + uom
                    + " and cannot move a fractional quantity"@,
            ),
        )
    } else {
        None
    }
}

/// The effect with its sums, or overflow where one of them leaves the range.
pub open spec fn effect_of(
    level: Position,
    qty_delta: Num,
    unit_cost: Num,
    value_delta: Num,
    reserved_after: Num,
) -> Result<Effect, Refusal> {
    match (plus(level.on_hand, qty_delta), plus(level.value, value_delta)) {
        (Some(qty_after), Some(value_after)) => Ok(
            Effect { qty_delta, unit_cost, value_delta, reserved_after, qty_after, value_after },
        ),
        _ => Err(Refusal::Overflow),
    }
}

/// What a receipt does: the quantity comes in at its rounded cost.
pub open spec fn receipt_effect(level: Position, qty: Num, unit_cost: Num) -> Result<Effect, Refusal> {
    if unit_cost.0 < 0 {
        Err(Refusal::Validation("unit cost must not be negative"@))
    } else {
        match times(qty, cost(unit_cost)) {
            None => Err(Refusal::Overflow),
            Some(value) => effect_of(level, qty, cost(unit_cost), money(value), level.reserved),
        }
    }
}

/// What an issue takes out in value: everything where it empties the location,
/// and otherwise its quantity at the average cost.
pub open spec fn issued_value(level: Position, qty: Num, avg: Num) -> Option<Num> {
    if worth(level.on_hand) == worth(qty) {
        Some(level.value)
    } else {
        rounded_of(times(qty, avg), 2)
    }
}

/// What an issue does.
pub open spec fn issue_effect(level: Position, qty: Num, covered: Num, sku: Seq<char>) -> Result<
    Effect,
    Refusal,
> {
    if covered.0 < 0 || worth(qty) < worth(covered) {
        Err(
            Refusal::Internal(
                "reservation coverage "@ + plain_text(covered) + " outside 0..="@ + plain_text(qty)
                    + " for "@ + sku,
            ),
        )
    } else if worth(level.reserved) < worth(covered) {
        Err(
            Refusal::Internal(
                "issue of "@ + sku + " claims "@ + plain_text(covered) + " reserved but only "@
                    + plain_text(level.reserved) + " is held"@,
            ),
        )
    } else {
        match minus(level.reserved, covered) {
            None => Err(Refusal::Overflow),
            Some(held) => match minus(level.on_hand, held) {
                None => Err(Refusal::Overflow),
                Some(free) => if worth(free) < worth(qty) {
                    Err(
                        Refusal::Validation(
                            "insufficient stock of "@ + sku + ": on hand "@ + plain_text(
                                level.on_hand,
                            ) + ", reserved for others "@ + plain_text(held) + ", requested "@
                                + plain_text(qty),
                        ),
                    )
                } else {
                    match average(level.value, level.on_hand) {
                        None => Err(Refusal::Overflow),
                        Some(avg) => match issued_value(level, qty, avg) {
                            None => Err(Refusal::Overflow),
                            Some(value) => effect_of(
                                level,
                                negated(qty),
                                avg,
                                negated(value),
                                held,
                            ),
                        },
                    }
                },
            },
        }
    }
}

/// What a movement of an item does to a level, or why it is refused.
pub open spec fn movement_effect(level: Position, item: Item, uom: Uom, mv: Flow) -> Result<
    Effect,
    Refusal,
> {
    if item.item_type != ItemType::Stockable {
        Err(
            Refusal::Validation(
                "item "@ + item.sku@ + " is not stockable and cannot move through the ledger"@,
            ),
        )
    } else {
        match mv {
            Flow::Receipt { qty, unit_cost } => match qty_refusal(
                qty,
                item.sku@,
                uom.fractional,
                uom.code@,
            ) {
                Some(r) => Err(r),
                None => receipt_effect(level, qty, unit_cost),
            },
            Flow::Issue { qty, covered } => match qty_refusal(
                qty,
                item.sku@,
                uom.fractional,
                uom.code@,
            ) {
                Some(r) => Err(r),
                None => issue_effect(level, qty, covered, item.sku@),
            },
        }
    }
}

fn ensure_valid_qty(qty: Decimal, item: &Item, uom: &Uom) -> (r: Result<(), Error>)
    ensures
        refusal(r) == qty_refusal(qty@, item.sku@, uom.fractional, uom.code@),
{
    if !qty.is_positive() {
        return Err(
            Error::Validation(cat3("quantity of ", item.sku.as_str(), " must be positive")),
        );
    }
    if !uom.fractional && qty.normalize().scale() > 0 {
        return Err(
            Error::Validation(
                cat5(
                    "item ",
                    item.sku.as_str(),
                    " is stocked in whole ",
                    uom.code.as_str(),
                    " and cannot move a fractional quantity",
                ),
            ),
        );
    }
    Ok(())
}

/// What a movement changes, computed.
#[derive(Clone, Copy, Debug)]
struct Change {
    qty_delta: Decimal,
    unit_cost: Decimal,
    value_delta: Decimal,
    reserved_after: Decimal,
    qty_after: Decimal,
    value_after: Decimal,
}

spec fn is_change(c: Change, e: Effect) -> bool {
    &&& c.qty_delta@ == e.qty_delta
    &&& c.unit_cost@ == e.unit_cost
    &&& c.value_delta@ == e.value_delta
    &&& c.reserved_after@ == e.reserved_after
    &&& c.qty_after@ == e.qty_after
    &&& c.value_after@ == e.value_after
}

spec fn changes(r: Result<Change, Error>, e: Result<Effect, Refusal>) -> bool {
    match e {
        Ok(e) => r is Ok && is_change(r->Ok_0, e),
        Err(why) => refusal(r) == Some(why),
    }
}

fn change_of(
    level: &Level,
    qty_delta: Decimal,
    unit_cost: Decimal,
    value_delta: Decimal,
    reserved_after: Decimal,
) -> (r: Result<Change, Error>)
    ensures
        changes(
            r,
            effect_of(level@, qty_delta@, unit_cost@, value_delta@, reserved_after@),
        ),
{
    let qty_after = in_range(level.on_hand.checked_add(qty_delta))?;
    let value_after = in_range(level.value.checked_add(value_delta))?;
    Ok(Change { qty_delta, unit_cost, value_delta, reserved_after, qty_after, value_after })
}

fn receive(level: &Level, qty: Decimal, unit_cost: Decimal) -> (r: Result<Change, Error>)
    ensures
        changes(r, receipt_effect(level@, qty@, unit_cost@)),
{
    if unit_cost.is_negative() {
        return Err(Error::Validation("unit cost must not be negative".to_owned()));
    }
    let at = round_cost(unit_cost);
    let value = in_range(qty.checked_mul(at))?;
    change_of(level, qty, at, round_money(value), level.reserved)
}

fn issue(level: &Level, qty: Decimal, covered: Decimal, sku: &str) -> (r: Result<Change, Error>)
    ensures
        changes(r, issue_effect(level@, qty@, covered@, sku@)),
{
    if covered.is_negative() || qty.less(&covered) {
        let a = covered.text();
        let b = qty.text();
        let head = cat4("reservation coverage ", a.as_str(), " outside 0..=", b.as_str());
        return Err(Error::Internal(cat3(head.as_str(), " for ", sku)));
    }
    if level.reserved.less(&covered) {
        let a = covered.text();
        let b = level.reserved.text();
        return Err(
            Error::Internal(
                cat7(
                    "issue of ",
                    sku,
                    " claims ",
                    a.as_str(),
                    " reserved but only ",
                    b.as_str(),
                    " is held",
                ),
            ),
        );
    }
    let held = in_range(level.reserved.checked_sub(covered))?;
    let free = in_range(level.on_hand.checked_sub(held))?;
    if free.less(&qty) {
        let a = level.on_hand.text();
        let b = held.text();
        let c = qty.text();
        let head = cat4("insufficient stock of ", sku, ": on hand ", a.as_str());
        return Err(
            Error::Validation(
                cat5(
                    head.as_str(),
                    ", reserved for others ",
                    b.as_str(),
                    ", requested ",
                    c.as_str(),
                ),
            ),
        );
    }
    let avg = level_average(level)?;
    let value = if level.on_hand.equals(&qty) {
        level.value
    } else {
        round_money(in_range(qty.checked_mul(avg))?)
    };
    change_of(level, qty.negate(), avg, value.negate(), held)
}

/// The level after a movement.
pub open spec fn level_after(level: Position, e: Effect) -> Position {
    Position {
        on_hand: e.qty_after,
        value: e.value_after,
        reserved: e.reserved_after,
        ..level
    }
}

/// The ledger row of a movement.
pub open spec fn is_row_of(row: LedgerRow, e: Effect) -> bool {
    &&& row.qty_delta@ == e.qty_delta
    &&& row.qty_after@ == e.qty_after
    &&& row.unit_cost@ == e.unit_cost
    &&& row.value_delta@ == e.value_delta
    &&& row.value_after@ == e.value_after
}

/// The stock engine.
#[derive(Clone, Copy, Debug)]
pub struct StockService;

/// What is granted of a wanted reservation: no more than is free.
pub open spec fn grantable(level: Position, want: Num) -> Option<Num> {
    match minus(level.on_hand, level.reserved) {
        Some(free) => Some(smaller(want, larger(free, zero()))),
        None => None,
    }
}

impl StockService {
    /// Apply one movement of an item: the level changes, and the row to append
    /// to the ledger comes back. A refused movement changes nothing. An
    /// issue's unit cost is the average that the stock went out at.
    pub fn apply(
        move_id: u128,
        move_line_id: u128,
        entry_date: Date,
        item: &Item,
        stock_uom: &Uom,
        level: &mut Level,
        batch_id: Option<u128>,
        mv: Movement,
    ) -> (r: Result<LedgerRow, Error>)
        ensures
            match movement_effect(old(level)@, *item, *stock_uom, mv@) {
                Err(why) => refusal(r) == Some(why) && *final(level) == *old(level),
                Ok(e) => {
                    &&& r is Ok
                    &&& is_row_of(r->Ok_0, e)
                    &&& final(level)@ == level_after(old(level)@, e)
                    &&& r->Ok_0.move_id == move_id
                    &&& r->Ok_0.move_line_id == move_line_id
                    &&& r->Ok_0.item_id == item.id
                    &&& r->Ok_0.warehouse_id == old(level).warehouse_id
                    &&& r->Ok_0.batch_id == batch_id
                    &&& r->Ok_0.entry_date == entry_date
                },
            },
    {
        if item.item_type != ItemType::Stockable {
            return Err(
                Error::Validation(
                    cat3(
                        "item ",
                        item.sku.as_str(),
                        " is not stockable and cannot move through the ledger",
                    ),
                ),
            );
        }
        let change = match mv {
            Movement::Receipt { qty, unit_cost } => {
                ensure_valid_qty(qty, item, stock_uom)?;
                receive(level, qty, unit_cost)?
            },
            Movement::Issue { qty, covered_by_reservation } => {
                ensure_valid_qty(qty, item, stock_uom)?;
                issue(level, qty, covered_by_reservation, item.sku.as_str())?
            },
        };
        level.on_hand = change.qty_after;
        level.value = change.value_after;
        level.reserved = change.reserved_after;
        Ok(
            LedgerRow {
                move_id,
                move_line_id,
                item_id: item.id,
                warehouse_id: level.warehouse_id,
                batch_id,
                entry_date,
                qty_delta: change.qty_delta,
                qty_after: change.qty_after,
                unit_cost: change.unit_cost,
                value_delta: change.value_delta,
                value_after: change.value_after,
            },
        )
    }

    /// Reserve up to `want`, granting what free stock allows. What is not
    /// granted stays the caller's shortfall.
    pub fn reserve_up_to(level: &mut Level, want: Decimal) -> (r: Result<Decimal, Error>)
        ensures
            ({
                let before = *old(level);
                let grant = grantable(before@, want@);
                if want@.0 <= 0 {
                    &&& r is Ok
                    &&& r->Ok_0@ == zero()
                    &&& *final(level) == before
                } else if grant is None {
                    refusal(r) == Some(Refusal::Overflow) && *final(level) == before
                } else if (grant->0).0 == 0 {
                    r is Ok && r->Ok_0@ == zero() && *final(level) == before
                } else {
                    match plus(before.reserved@, grant->0) {
                        None => refusal(r) == Some(Refusal::Overflow) && *final(level) == before,
                        Some(next) => {
                            &&& r is Ok
                            &&& r->Ok_0@ == grant->0
                            &&& final(level).reserved@ == next
                            &&& *final(level) == Level { reserved: final(level).reserved, ..before }
                        },
                    }
                }
            }),
    {
        if !want.is_positive() {
            return Ok(Decimal::zero());
        }
        let free = in_range(level.on_hand.checked_sub(level.reserved))?.max(Decimal::zero());
        let granted = want.min(free);
        if granted.is_zero() {
            return Ok(Decimal::zero());
        }
        let next = in_range(level.reserved.checked_add(granted))?;
        level.reserved = next;
        Ok(granted)
    }

    /// Release `qty` of reservation, or as much as is held where that is less.
    pub fn release_reserved(level: &mut Level, qty: Decimal) -> (r: Result<Decimal, Error>)
        ensures
            ({
                let before = *old(level);
                let released = smaller(qty@, before.reserved@);
                if qty@.0 <= 0 || released.0 == 0 {
                    r is Ok && r->Ok_0@ == zero() && *final(level) == before
                } else {
                    match minus(before.reserved@, released) {
                        None => refusal(r) == Some(Refusal::Overflow) && *final(level) == before,
                        Some(next) => {
                            &&& r is Ok
                            &&& r->Ok_0@ == released
                            &&& final(level).reserved@ == next
                            &&& *final(level) == Level { reserved: final(level).reserved, ..before }
                        },
                    }
                }
            }),
    {
        if !qty.is_positive() {
            return Ok(Decimal::zero());
        }
        let released = qty.min(level.reserved);
        if released.is_zero() {
            return Ok(Decimal::zero());
        }
        let next = in_range(level.reserved.checked_sub(released))?;
        level.reserved = next;
        Ok(released)
    }

    /// Change the quantity on open purchase orders, not below zero: it is
    /// advisory.
    pub fn adjust_on_order(level: &mut Level, delta: Decimal) -> (r: Result<(), Error>)
        ensures
            ({
                let before = *old(level);
                match plus(before.on_order@, delta@) {
                    None => refusal(r) == Some(Refusal::Overflow) && *final(level) == before,
                    Some(next) => {
                        &&& r is Ok
                        &&& final(level).on_order@ == larger(next, zero())
                        &&& *final(level) == Level { on_order: final(level).on_order, ..before }
                    },
                }
            }),
    {
        let next = in_range(level.on_order.checked_add(delta))?.max(Decimal::zero());
        level.on_order = next;
        Ok(())
    }
}

// ---------------------------------------------------------------------------
// Laws
// ---------------------------------------------------------------------------

/// An issue that empties a location flushes its whole value: no quantity left
/// means no value left, to the last digit.
pub proof fn emptying_flushes_the_value(
    level: Position,
    item: Item,
    uom: Uom,
    qty: Num,
    covered: Num,
)
    requires
        representable(level.on_hand),
        representable(level.value),
        representable(qty),
        worth(level.on_hand) == worth(qty),
        movement_effect(level, item, uom, Flow::Issue { qty, covered })
            is Ok,
    ensures
        ({
            let e = movement_effect(
                level,
                item,
                uom,
                Flow::Issue { qty, covered },
            )->Ok_0;
            &&& e.value_delta == negated(level.value)
            &&& worth(e.qty_after) == 0
            &&& worth(e.value_after) == 0
        }),
{
    lemma_cancels(level.on_hand, qty);
    lemma_cancels(level.value, level.value);
}

/// Stock goes out at the running average, whatever is reserved: the unit cost of
/// an accepted issue is the value of the level divided by all that is on hand, to
/// six places, and an issue that leaves stock behind takes out its quantity times
/// that cost, to the cent.
pub proof fn issues_go_out_at_the_average(
    level: Position,
    item: Item,
    uom: Uom,
    qty: Num,
    covered: Num,
)
    requires
        level.on_hand.0 != 0,
        movement_effect(level, item, uom, Flow::Issue { qty, covered }) is Ok,
    ensures
        ({
            let e = movement_effect(level, item, uom, Flow::Issue { qty, covered })->Ok_0;
            &&& over(level.value, level.on_hand) matches Some(q) && e.unit_cost == rounded(q, 6)
            &&& e.qty_delta == negated(qty)
            &&& worth(qty) != worth(level.on_hand) ==> (times(qty, e.unit_cost) matches Some(v)
                && e.value_delta == negated(rounded(v, 2)))
            &&& plus(level.on_hand, e.qty_delta) == Some(e.qty_after)
            &&& plus(level.value, e.value_delta) == Some(e.value_after)
        }),
{
}

/// Reservations do not change what stock costs: of two levels that differ only in
/// what is reserved, an issue that both accept, covered by a reservation or not,
/// takes the same quantity and the same value at the same cost.
pub proof fn reservations_do_not_change_the_cost(
    level: Position,
    other: Position,
    item: Item,
    uom: Uom,
    qty: Num,
    covered: Num,
    covered_there: Num,
)
    requires
        other == (Position { reserved: other.reserved, ..level }),
        movement_effect(level, item, uom, Flow::Issue { qty, covered }) is Ok,
        movement_effect(other, item, uom, Flow::Issue { qty, covered: covered_there }) is Ok,
    ensures
        ({
            let a = movement_effect(level, item, uom, Flow::Issue { qty, covered })->Ok_0;
            let b = movement_effect(
                other,
                item,
                uom,
                Flow::Issue { qty, covered: covered_there },
            )->Ok_0;
            &&& a.unit_cost == b.unit_cost
            &&& a.qty_delta == b.qty_delta
            &&& a.value_delta == b.value_delta
            &&& a.qty_after == b.qty_after
            &&& a.value_after == b.value_after
        }),
{
}

/// Stock comes in at its own cost, whatever the level holds already: the unit cost
/// of an accepted receipt is the cost that it names, to six places, and the value
/// that it adds is its quantity times that cost, to the cent.
pub proof fn receipts_come_in_at_their_cost(
    level: Position,
    item: Item,
    uom: Uom,
    qty: Num,
    unit_cost: Num,
)
    requires
        movement_effect(level, item, uom, Flow::Receipt { qty, unit_cost }) is Ok,
    ensures
        ({
            let e = movement_effect(level, item, uom, Flow::Receipt { qty, unit_cost })->Ok_0;
            &&& e.unit_cost == rounded(unit_cost, 6)
            &&& e.qty_delta == qty
            &&& times(qty, e.unit_cost) matches Some(v) && e.value_delta == rounded(v, 2)
            &&& plus(level.on_hand, qty) == Some(e.qty_after)
            &&& plus(level.value, e.value_delta) == Some(e.value_after)
            &&& e.reserved_after == level.reserved
        }),
{
}

/// Whether `b`, taken `sign` times, is added to `a` without rounding.
pub open spec fn exactly(a: Num, b: Num, sign: int) -> bool {
    representable(a) && representable(b) && aligns(a, b, sign)
}

/// What every level keeps: what is reserved is not negative, and is on hand.
pub open spec fn sound(level: Position) -> bool {
    &&& representable(level.on_hand)
    &&& representable(level.reserved)
    &&& 0 <= worth(level.reserved) <= worth(level.on_hand)
}

proof fn lemma_exactly(a: Num, b: Num, sign: int)
    requires
        exactly(a, b, sign),
        sign == 1 || sign == -1,
    ensures
        worth(combined(a, b, sign)) == worth(a) + sign * worth(b),
        representable(combined(a, b, sign)),
{
    lemma_combined_worth(a, b, sign);
}

/// Whether a number can be written with that many places.
pub open spec fn fits(n: Num, places: nat) -> bool {
    representable((rescaled(n, places), places))
}

/// What is smaller fits as well.
proof fn lemma_smaller_fits(a: Num, b: Num, p: nat)
    requires
        fits(a, p),
        b.1 <= p,
        a.1 <= p,
        0 <= worth(b) <= worth(a),
    ensures
        fits(b, p),
        0 <= rescaled(b, p) <= rescaled(a, p),
{
    let f = pow10((max_places() - p) as nat);
    lemma_pow10_positive((max_places() - p) as nat);
    lemma_worth_rescaled(a, p);
    lemma_worth_rescaled(b, p);
    let x = rescaled(a, p);
    let y = rescaled(b, p);
    assert(0 <= y <= x) by (nonlinear_arith)
        requires
            0 <= y * f <= x * f,
            f >= 1,
    ;
}

/// Two numbers that are not negative and fit are taken from each other without
/// rounding.
proof fn lemma_taken_exactly(a: Num, b: Num, p: nat)
    requires
        representable(a),
        representable(b),
        a.1 <= p,
        b.1 <= p,
        fits(a, p),
        fits(b, p),
        worth(a) >= 0,
        worth(b) >= 0,
    ensures
        exactly(a, b, -1),
        exactly(a, negated(b), 1),
{
    let m = more_places(a, b);
    lemma_rescaled_grows(a, m, p);
    lemma_rescaled_grows(b, m, p);
    lemma_worth_rescaled(a, m);
    lemma_worth_rescaled(b, m);
    let f = pow10((max_places() - m) as nat);
    lemma_pow10_positive((max_places() - m) as nat);
    let x = rescaled(a, m);
    let y = rescaled(b, m);
    assert(x >= 0 && y >= 0) by (nonlinear_arith)
        requires
            x * f >= 0,
            y * f >= 0,
            f >= 1,
    ;
    assert(x + -1 * y == x - y);
    let g = pow10((m - b.1) as nat);
    assert((-b.0) * g == -(b.0 * g)) by (nonlinear_arith);
    assert(x + 1 * (-y) == x - y);
    assert(more_places(a, negated(b)) == m);
}

/// The most decimal places among the figures of an issue.
pub open spec fn issue_places(level: Position, qty: Num, covered: Num) -> nat {
    let p = more_places(level.on_hand, level.reserved);
    let q = more_places(qty, covered);
    if p >= q {
        p
    } else {
        q
    }
}

/// Whether what is on hand and reserved can be written with the places of all the
/// figures of an issue: only where it cannot are quantities rounded.
pub open spec fn issue_fits(level: Position, qty: Num, covered: Num) -> bool {
    &&& representable(level.on_hand)
    &&& representable(level.reserved)
    &&& representable(qty)
    &&& representable(covered)
    &&& fits(level.on_hand, issue_places(level, qty, covered))
    &&& fits(level.reserved, issue_places(level, qty, covered))
}

/// An issue moves its quantities exactly.
proof fn lemma_issue_exact(level: Position, item: Item, uom: Uom, qty: Num, covered: Num)
    requires
        worth(level.on_hand) >= 0,
        issue_fits(level, qty, covered),
        movement_effect(level, item, uom, Flow::Issue { qty, covered }) is Ok,
    ensures
        ({
            let e = movement_effect(level, item, uom, Flow::Issue { qty, covered })->Ok_0;
            &&& representable(e.qty_after)
            &&& representable(e.reserved_after)
            &&& worth(e.qty_after) == worth(level.on_hand) - worth(qty)
            &&& worth(e.reserved_after) == worth(level.reserved) - worth(covered)
            &&& worth(qty) > 0
            &&& 0 <= worth(e.reserved_after) <= worth(e.qty_after)
        }),
{
    let p = issue_places(level, qty, covered);
    let h = level.on_hand;
    let r = level.reserved;
    lemma_worth_sign(covered);
    lemma_worth_sign(qty);
    lemma_smaller_fits(r, covered, p);
    lemma_taken_exactly(r, covered, p);
    lemma_exactly(r, covered, -1);
    let held = combined(r, covered, -1);
    lemma_smaller_fits(r, held, p);
    lemma_taken_exactly(h, held, p);
    lemma_exactly(h, held, -1);
    lemma_smaller_fits(h, qty, p);
    lemma_taken_exactly(h, qty, p);
    lemma_exactly(h, negated(qty), 1);
    lemma_worth_negated(qty);
}

/// An issue never takes stock that is promised elsewhere: what stays on hand
/// still covers every other reservation, and so it is never negative. The
/// quantities move exactly.
pub proof fn issues_keep_levels_sound(
    level: Position,
    item: Item,
    uom: Uom,
    qty: Num,
    covered: Num,
)
    requires
        sound(level),
        issue_fits(level, qty, covered),
        movement_effect(level, item, uom, Flow::Issue { qty, covered })
            is Ok,
    ensures
        ({
            let e = movement_effect(
                level,
                item,
                uom,
                Flow::Issue { qty, covered },
            )->Ok_0;
            &&& worth(e.qty_after) == worth(level.on_hand) - worth(qty)
            &&& worth(e.reserved_after) == worth(level.reserved) - worth(covered)
            &&& sound(level_after(level, e))
        }),
{
    lemma_issue_exact(level, item, uom, qty, covered);
}

/// A receipt adds its quantity exactly and leaves reservations alone.
pub proof fn receipts_keep_levels_sound(
    level: Position,
    item: Item,
    uom: Uom,
    qty: Num,
    unit_cost: Num,
)
    requires
        sound(level),
        exactly(level.on_hand, qty, 1),
        movement_effect(level, item, uom, Flow::Receipt { qty, unit_cost }) is Ok,
    ensures
        ({
            let e = movement_effect(level, item, uom, Flow::Receipt { qty, unit_cost })->Ok_0;
            &&& worth(e.qty_after) == worth(level.on_hand) + worth(qty)
            &&& e.reserved_after == level.reserved
            &&& sound(level_after(level, e))
        }),
{
    lemma_exactly(level.on_hand, qty, 1);
    lemma_worth_sign(qty);
}

/// Nothing on hand is worth nothing: whatever moves without rounding the
/// quantity, a level that holds no quantity holds no value, and none holds less
/// than nothing. What is reserved has no part in it.
pub proof fn no_quantity_no_value(level: Position, item: Item, uom: Uom, mv: Flow)
    requires
        worth(level.on_hand) >= 0,
        worth(level.on_hand) == 0 ==> worth(level.value) == 0,
        representable(level.value),
        match mv {
            Flow::Receipt { qty, unit_cost } => exact_sum(level.on_hand, qty),
            Flow::Issue { qty, covered } => issue_fits(level, qty, covered),
        },
        movement_effect(level, item, uom, mv) is Ok,
    ensures
        ({
            let after = level_after(level, movement_effect(level, item, uom, mv)->Ok_0);
            &&& worth(after.on_hand) >= 0
            &&& worth(after.on_hand) == 0 ==> worth(after.value) == 0
        }),
{
    match mv {
        Flow::Receipt { qty, unit_cost } => {
            lemma_worth_sign(qty);
        },
        Flow::Issue { qty, covered } => {
            lemma_issue_exact(level, item, uom, qty, covered);
            if worth(level.on_hand) == worth(qty) {
                emptying_flushes_the_value(level, item, uom, qty, covered);
            }
        },
    }
}

/// Whether levels follow each other by movements, each with its effect and
/// without rounding.
pub open spec fn is_history(
    levels: Seq<Position>,
    effects: Seq<Effect>,
    flows: Seq<Flow>,
    item: Item,
    uom: Uom,
) -> bool {
    &&& levels.len() == effects.len() + 1
    &&& flows.len() == effects.len()
    &&& forall|i: int|
        0 <= i < effects.len() ==> {
            let e = #[trigger] effects[i];
            &&& movement_effect(levels[i], item, uom, flows[i]) == Ok::<Effect, Refusal>(e)
            &&& levels[i + 1] == level_after(levels[i], e)
            &&& exact_sum(levels[i].on_hand, e.qty_delta)
            &&& exact_sum(levels[i].value, e.value_delta)
        }
}

pub open spec fn quantities(effects: Seq<Effect>) -> Seq<Num> {
    effects.map_values(|e: Effect| e.qty_delta)
}

pub open spec fn values(effects: Seq<Effect>) -> Seq<Num> {
    effects.map_values(|e: Effect| e.value_delta)
}

proof fn lemma_history(
    levels: Seq<Position>,
    effects: Seq<Effect>,
    flows: Seq<Flow>,
    item: Item,
    uom: Uom,
    n: nat,
)
    requires
        is_history(levels, effects, flows, item, uom),
        n <= effects.len(),
    ensures
        worth(levels[n as int].on_hand) == worth(levels[0].on_hand) + worth_to(
            quantities(effects),
            n,
        ),
        worth(levels[n as int].value) == worth(levels[0].value) + worth_to(values(effects), n),
    decreases n,
{
    if n > 0 {
        lemma_history(levels, effects, flows, item, uom, (n - 1) as nat);
        let e = effects[n - 1];
        assert(movement_effect(levels[n - 1], item, uom, flows[n - 1]) == Ok::<Effect, Refusal>(e));
        assert(quantities(effects)[n - 1] == e.qty_delta);
        assert(values(effects)[n - 1] == e.value_delta);
        assert(plus(levels[n - 1].on_hand, e.qty_delta) == Some(e.qty_after));
        assert(plus(levels[n - 1].value, e.value_delta) == Some(e.value_after));
    }
}

/// The ledger explains the level: what a level holds, in quantity and in value,
/// is what it held at first and what the rows of the ledger since then add up
/// to.
pub proof fn the_ledger_explains_the_level(
    levels: Seq<Position>,
    effects: Seq<Effect>,
    flows: Seq<Flow>,
    item: Item,
    uom: Uom,
)
    requires
        is_history(levels, effects, flows, item, uom),
    ensures
        worth(levels.last().on_hand) == worth(levels[0].on_hand) + worth_of(quantities(effects)),
        worth(levels.last().value) == worth(levels[0].value) + worth_of(values(effects)),
{
    lemma_history(levels, effects, flows, item, uom, effects.len());
}

/// The same stock is never promised twice: what is granted is no more than was
/// wanted and no more than was free, and afterwards the reservations are still
/// all on hand.
pub proof fn grants_keep_levels_sound(level: Position, want: Num)
    requires
        sound(level),
        representable(want),
        want.0 > 0,
        fits(level.on_hand, all_places(level, want)),
    ensures
        grantable(level, want) is Some,
        ({
            let grant = grantable(level, want)->0;
            &&& 0 <= worth(grant) <= worth(want)
            &&& worth(grant) <= worth(level.on_hand) - worth(level.reserved)
            &&& plus(level.reserved, grant) is Some
            &&& worth(plus(level.reserved, grant)->0) == worth(level.reserved) + worth(grant)
            &&& worth(plus(level.reserved, grant)->0) <= worth(level.on_hand)
        }),
{
    let p = all_places(level, want);
    lemma_smaller_fits(level.on_hand, level.reserved, p);
    lemma_taken_exactly(level.on_hand, level.reserved, p);
    lemma_exactly(level.on_hand, level.reserved, -1);
    lemma_worth_sign(zero());
    lemma_worth_sign(want);
    releasing_undoes_reserving(level, want);
}

/// A number is written with its own places as it is.
proof fn lemma_unscaled(n: Num)
    ensures
        rescaled(n, n.1) == n.0,
{
    let one = pow10((n.1 - n.1) as nat);
    assert(one == 1);
    assert(n.0 * one == n.0) by (nonlinear_arith)
        requires
            one == 1,
    ;
}

/// What a request to release takes off a reservation.
pub open spec fn released(reserved: Num, qty: Num) -> Num {
    if qty.0 <= 0 {
        zero()
    } else {
        smaller(qty, reserved)
    }
}

/// Whatever is asked to be released, what is reserved less that much is left,
/// and never less than nothing. Only where what is reserved cannot be written
/// with the places of a smaller quantity is the difference rounded.
pub proof fn releases_stop_at_nothing(reserved: Num, qty: Num)
    requires
        representable(reserved),
        representable(qty),
        worth(reserved) >= 0,
        0 < worth(qty) < worth(reserved) && qty.1 > reserved.1 ==> representable(
            (rescaled(reserved, qty.1), qty.1),
        ),
    ensures
        ({
            let taken = released(reserved, qty);
            &&& worth(taken) == if worth(qty) <= 0 {
                0
            } else if worth(qty) < worth(reserved) {
                worth(qty)
            } else {
                worth(reserved)
            }
            &&& minus(reserved, taken) is Some
            &&& worth(minus(reserved, taken)->0) == worth(reserved) - worth(taken)
            &&& worth(minus(reserved, taken)->0) >= 0
        }),
{
    lemma_worth_sign(qty);
    lemma_worth_sign(reserved);
    lemma_worth_sign(zero());
    let taken = released(reserved, qty);
    let m = more_places(reserved, taken);
    lemma_worth_rescaled(reserved, m);
    lemma_worth_rescaled(taken, m);
    let f = pow10((max_places() - m) as nat);
    lemma_pow10_positive((max_places() - m) as nat);
    let x = rescaled(reserved, m);
    let y = rescaled(taken, m);
    assert(pow10(0) == 1);
    assert(reserved.1 == m ==> x == reserved.0 * pow10(0));
    assert(taken.1 == m ==> y == taken.0 * pow10(0));
    assert(0 <= y <= x) by (nonlinear_arith)
        requires
            0 <= y * f <= x * f,
            f >= 1,
    ;
    assert(x * f == y * f ==> x == y) by (nonlinear_arith)
        requires
            f >= 1,
    ;
    assert(taken.0 != 0 ==> abs(x) < limit()) by {
        if taken.0 != 0 && taken.1 > reserved.1 {
            assert(taken == qty && m == qty.1);
            if worth(qty) < worth(reserved) {
                assert(representable((rescaled(reserved, qty.1), qty.1)));
            } else {
                assert(x == y);
                lemma_unscaled(qty);
            }
        } else if taken.0 != 0 {
            assert(m == reserved.1);
            lemma_unscaled(reserved);
        }
    }
    assert(x + -1 * y == x - y);
    assert(aligns(reserved, taken, -1));
    lemma_exactly(reserved, taken, -1);
}

proof fn lemma_undone(reserved: Num, granted: Num)
    requires
        exactly(reserved, granted, 1),
        granted.0 > 0,
        0 <= worth(reserved),
    ensures
        plus(reserved, granted) is Some,
        ({
            let next = plus(reserved, granted)->0;
            &&& released(next, granted) == granted
            &&& minus(next, granted) is Some
            &&& worth(minus(next, granted)->0) == worth(reserved)
        }),
{
    lemma_worth_sign(granted);
    lemma_worth_sign(reserved);
    lemma_exactly(reserved, granted, 1);
    let next = combined(reserved, granted, 1);
    let m = more_places(reserved, granted);
    assert(pow10(0) == 1);
    let g = rescaled(granted, m);
    if reserved.0 == 0 {
        assert(next == (1 * granted.0, granted.1));
        assert(rescaled(granted, granted.1) == granted.0 * pow10(0));
        assert(more_places(next, granted) == granted.1);
        assert(granted.0 + -1 * granted.0 == 0);
    } else {
        assert(more_places(next, granted) == m);
        assert(rescaled(next, m) == next.0 * pow10(0));
        assert(next.0 == rescaled(reserved, m) + 1 * g);
        assert(next.0 + -1 * g == rescaled(reserved, m));
    }
    assert(aligns(next, granted, -1));
    lemma_exactly(next, granted, -1);
}

/// The most decimal places among what is on hand, reserved and wanted.
pub open spec fn all_places(level: Position, want: Num) -> nat {
    let p = more_places(level.on_hand, level.reserved);
    if want.1 > p {
        want.1
    } else {
        p
    }
}

/// Whatever was asked for: what is granted of it and released again leaves the
/// reservation worth what it was. Sums are rounded only where what is on hand or
/// reserved cannot be written with the places of all three.
pub proof fn releasing_undoes_reserving(level: Position, want: Num)
    requires
        representable(level.on_hand),
        representable(level.reserved),
        representable(want),
        want.0 > 0,
        worth(level.reserved) >= 0,
        worth(level.on_hand) >= 0 || exactly(level.on_hand, level.reserved, -1),
        fits(level.on_hand, all_places(level, want)),
        fits(level.reserved, all_places(level, want)),
    ensures
        grantable(level, want) matches Some(granted) && worth(granted) >= 0 && (plus(
            level.reserved,
            granted,
        ) matches Some(next) && {
            &&& worth(next) == worth(level.reserved) + worth(granted)
            &&& worth(released(next, granted)) == worth(granted)
            &&& minus(next, released(next, granted)) matches Some(left) && worth(left) == worth(
                level.reserved,
            )
        }),
{
    let p = all_places(level, want);
    let h = level.on_hand;
    let r = level.reserved;
    lemma_worth_sign(h);
    lemma_worth_sign(r);
    lemma_worth_sign(want);
    lemma_worth_sign(zero());
    if worth(h) >= 0 {
        lemma_taken_exactly(h, r, p);
    }
    lemma_exactly(h, r, -1);
    let free = combined(h, r, -1);
    let granted = grantable(level, want)->0;
    assert(granted == smaller(want, larger(free, zero())));
    assert(granted.1 <= p);
    if granted.0 != 0 {
        lemma_worth_sign(granted);
        lemma_fits_together(h, r, granted, p);
        lemma_undone(r, granted);
        lemma_exactly(r, granted, 1);
    } else {
        lemma_worth_sign(granted);
        lemma_combined_worth(r, granted, 1);
        let next = combined(r, granted, 1);
        lemma_combined_worth(next, zero(), -1);
    }
}

/// What is granted of the free stock is added to the reservation without
/// rounding.
proof fn lemma_fits_together(on_hand: Num, reserved: Num, granted: Num, p: nat)
    requires
        on_hand.1 <= p <= max_places(),
        reserved.1 <= p,
        granted.1 <= p,
        representable(reserved),
        representable(granted),
        fits(on_hand, p),
        worth(reserved) >= 0,
        worth(granted) > 0,
        worth(granted) <= worth(on_hand) - worth(reserved),
    ensures
        exactly(reserved, granted, 1),
{
    let f = pow10((max_places() - p) as nat);
    lemma_pow10_positive((max_places() - p) as nat);
    lemma_worth_rescaled(on_hand, p);
    lemma_worth_rescaled(reserved, p);
    lemma_worth_rescaled(granted, p);
    let x = rescaled(on_hand, p);
    let y = rescaled(reserved, p);
    let g = rescaled(granted, p);
    assert(y >= 0 && g > 0 && y + g <= x) by (nonlinear_arith)
        requires
            y * f >= 0,
            g * f > 0,
            g * f <= x * f - y * f,
            f >= 1,
    ;
    lemma_combined_exact(reserved, granted, 1, p, y, g);
}

/// As much is granted as there is: all that was wanted, or all that is free where that is
/// less.
pub proof fn grants_give_all_that_is_free(level: Position, want: Num)
    requires
        sound(level),
        representable(want),
        want.0 > 0,
        fits(level.on_hand, all_places(level, want)),
    ensures
        grantable(level, want) matches Some(grant) && ({
            let free = worth(level.on_hand) - worth(level.reserved);
            worth(grant) == if worth(want) <= free {
                worth(want)
            } else {
                free
            }
        }),
{
    let p = all_places(level, want);
    lemma_smaller_fits(level.on_hand, level.reserved, p);
    lemma_taken_exactly(level.on_hand, level.reserved, p);
    lemma_exactly(level.on_hand, level.reserved, -1);
    lemma_worth_sign(zero());
    lemma_worth_sign(want);
}

/// Stock that is free, or held for the issue, is never refused, and no other ever leaves: an
/// issue of a stockable item in a quantity that its unit allows, covered by no more
/// than is reserved, is short of stock exactly where it asks for more than is on hand
/// beyond what stays reserved.
pub proof fn issues_take_what_is_free(
    level: Position,
    item: Item,
    uom: Uom,
    qty: Num,
    covered: Num,
)
    requires
        sound(level),
        issue_fits(level, qty, covered),
        item.item_type == ItemType::Stockable,
        qty.0 > 0,
        uom.fractional || normalized(qty).1 == 0,
        0 <= worth(covered) <= worth(qty),
        worth(covered) <= worth(level.reserved),
    ensures
        ({
            let r = movement_effect(level, item, uom, Flow::Issue { qty, covered });
            let free = worth(level.on_hand) - (worth(level.reserved) - worth(covered));
            &&& worth(qty) <= free ==> r is Ok || r == Err::<Effect, Refusal>(Refusal::Overflow)
            &&& worth(qty) > free ==> (r matches Err(why) && why is Validation)
        }),
{
    let p = issue_places(level, qty, covered);
    let h = level.on_hand;
    let r = level.reserved;
    lemma_worth_sign(covered);
    lemma_worth_sign(qty);
    lemma_smaller_fits(r, covered, p);
    lemma_taken_exactly(r, covered, p);
    lemma_exactly(r, covered, -1);
    let held = combined(r, covered, -1);
    lemma_smaller_fits(r, held, p);
    lemma_taken_exactly(h, held, p);
    lemma_exactly(h, held, -1);
}

} // verus!
