//! Consolidation: a whole day of selling becomes one stock movement, with one
//! ledger touch per item and lot, and one entry of takings.

use super::register::{find_register, register_id, Model as Register};
use super::sale::{batch_id, Book, LineFacts, OrderFacts, OrderKind, SaleService};
use super::session::{
    find_session, no_session, session_id, CashMovement, Session, SessionCount, SessionService,
    SessionStatus,
};
use super::takings::{
    card_net, cash_net, find_kind, is_money, kind_in, modest, money_in_range, mpesa_net, net_of_tax,
    session_money, stored_count, stored_row, tax_net_of, tenders_match_revenue, SessionMoney,
};
use crate::date::Date;
use crate::decimal::{limit, minus, negated, opt, worth, zero, Decimal, Num};
use crate::error::{in_range, refusal, Error, Refusal};
use crate::scm::inventory::batch::Batch;
use crate::scm::inventory::item::{
    find_item_by_id, find_uom_by_id, item_id, uom_id, Item, ItemType, Uom,
};
use crate::scm::inventory::stock::{
    average, is_row_of, level_after, level_average, movement_effect, Effect, Flow, LedgerRow, Level,
    Movement, Position, StockService,
};
use crate::search::{find, find_viewed, first_from, first_where, kept_to, lemma_first_from};
use crate::sums::{
    adds_exactly, kept_places, lemma_combined_exact, lemma_sum_exact, lemma_total_push,
    lemma_worth_sign, picked, picked_to, sum_of, total, worth_of,
};
use crate::text::{cat2, cat3, id_text, number_or_blank, opt_text, show_id, show_or_blank};
use vstd::prelude::*;

verus! {

// ---------------------------------------------------------------------------
// Net quantities
// ---------------------------------------------------------------------------

/// An item, and the lot of it, where it has lots.
pub type Key = (u128, Option<u128>);

/// Items in the order of their ids, and the lots of an item in the order of
/// theirs, with what has no lot first.
pub open spec fn key_before(a: Key, b: Key) -> bool {
    a.0 < b.0 || (a.0 == b.0 && match (a.1, b.1) {
        (None, Some(_)) => true,
        (Some(x), Some(y)) => x < y,
        _ => false,
    })
}

fn goes_first(a: Key, b: Key) -> (r: bool)
    ensures
        r == key_before(a, b),
{
    if a.0 != b.0 {
        return a.0 < b.0;
    }
    match (a.1, b.1) {
        (None, Some(_)) => true,
        (Some(x), Some(y)) => x < y,
        _ => false,
    }
}

/// What was sold of an item and lot, net of what came back: positive went out,
/// negative came in.
#[derive(Clone, Copy, Debug)]
pub struct Aggregate {
    pub item_id: u128,
    pub batch_id: Option<u128>,
    pub net_qty: Decimal,
}

pub open spec fn key_of(a: Aggregate) -> Key {
    (a.item_id, a.batch_id)
}

/// Whether a line moves an item and lot in a session.
pub open spec fn moves(orders: Seq<OrderFacts>, session: u128, key: Key) -> spec_fn(LineFacts) -> bool {
    |l: LineFacts|
        (l.item_id, l.batch_id) == key && kind_in(orders, session, l.order_id) is Some
}

/// What a line moves: a sale moves out, a refund moves in.
pub open spec fn outward(orders: Seq<OrderFacts>, session: u128) -> spec_fn(LineFacts) -> Num {
    |l: LineFacts|
        if kind_in(orders, session, l.order_id) == Some(OrderKind::Sale) {
            l.qty
        } else {
            negated(l.qty)
        }
}

/// What the lines of a session move of an item and lot.
pub open spec fn movements(book: Book, session: u128, key: Key) -> Seq<Num> {
    picked(book.lines, moves(book.orders, session, key), outward(book.orders, session))
}

/// What a session moves of an item and lot, net.
pub open spec fn net_qty(book: Book, session: u128, key: Key) -> Option<Num> {
    total(movements(book, session, key))
}

/// Whether each item and lot stands once in a list, in order.
pub open spec fn in_order(list: Seq<Aggregate>) -> bool {
    forall|i: int, j: int|
        0 <= i < j < list.len() ==> key_before(
            key_of(#[trigger] list[i]),
            key_of(#[trigger] list[j]),
        )
}

/// Whether an item and lot stands in a list.
pub open spec fn lists(list: Seq<Aggregate>, key: Key) -> bool {
    exists|i: int| 0 <= i < list.len() && key_of(#[trigger] list[i]) == key
}

/// Whether a list holds each item and lot that a session moved, net of
/// refunds, once and in order, and nothing that netted to zero.
pub open spec fn is_aggregated(list: Seq<Aggregate>, book: Book, session: u128) -> bool {
    &&& in_order(list)
    &&& forall|i: int|
        0 <= i < list.len() ==> is_net(#[trigger] list[i], book, session)
    &&& forall|k: int|
        0 <= k < book.lines.len() && kind_in(
            book.orders,
            session,
            (#[trigger] book.lines[k]).order_id,
        ) is Some ==> accounted(list, book, session, book.lines[k])
}

/// Whether an aggregate is what a session moved, and that is not nothing.
pub open spec fn is_net(a: Aggregate, book: Book, session: u128) -> bool {
    net_qty(book, session, key_of(a)) == Some(a.net_qty@) && a.net_qty@.0 != 0
}

/// Whether what a line moves is in the list, or netted to zero.
pub open spec fn accounted(list: Seq<Aggregate>, book: Book, session: u128, l: LineFacts) -> bool {
    match net_qty(book, session, (l.item_id, l.batch_id)) {
        None => false,
        Some(n) => n.0 == 0 || lists(list, (l.item_id, l.batch_id)),
    }
}

/// Whether what a session moved of some item and lot leaves the range.
pub open spec fn aggregation_overflows(book: Book, session: u128) -> bool {
    exists|k: int|
        0 <= k < book.lines.len() && kind_in(
            book.orders,
            session,
            (#[trigger] book.lines[k]).order_id,
        ) is Some && net_qty(
            book,
            session,
            (book.lines[k].item_id, book.lines[k].batch_id),
        ) is None
}

fn net_of(book: &SaleService, session: u128, key: Key) -> (r: Option<Decimal>)
    ensures
        opt(r) == net_qty(book@, session, key),
{
    let ghost all = book@.lines;
    let ghost p = moves(book@.orders, session, key);
    let ghost f = outward(book@.orders, session);
    let mut sum: Option<Decimal> = Some(Decimal::zero());
    let mut i: usize = 0;
    while i < book.lines.len()
        invariant
            i <= book.lines.len(),
            all == book@.lines,
            p == moves(book@.orders, session, key),
            f == outward(book@.orders, session),
            opt(sum) == total(picked_to(all, p, f, i as nat)),
        decreases book.lines.len() - i,
    {
        let l = &book.lines[i];
        assert(all[i as int] == l@);
        let kind = find_kind(book, session, l.order_id);
        if l.item_id == key.0 && l.batch_id == key.1 && kind.is_some() {
            let qty = if kind == Some(OrderKind::Sale) {
                l.qty
            } else {
                l.qty.negate()
            };
            proof {
                assert(p(all[i as int]));
                assert(f(all[i as int]) == qty@);
                lemma_total_push(picked_to(all, p, f, i as nat), qty@);
            }
            sum = match sum {
                Some(s) => s.checked_add(qty),
                None => None,
            };
        } else {
            assert(!p(all[i as int]));
        }
        i = i + 1;
    }
    sum
}

/// An aggregate whose key comes after all before its place, and before all from
/// there on, keeps the order.
proof fn lemma_inserted_in_order(list: Seq<Aggregate>, k: int, a: Aggregate)
    requires
        in_order(list),
        0 <= k <= list.len(),
        forall|i: int| 0 <= i < k ==> key_before(key_of(#[trigger] list[i]), key_of(a)),
        forall|i: int| k <= i < list.len() ==> key_before(key_of(a), key_of(#[trigger] list[i])),
    ensures
        in_order(list.insert(k, a)),
{
    let after = list.insert(k, a);
    assert forall|i: int, j: int| 0 <= i < j < after.len() implies key_before(
        key_of(#[trigger] after[i]),
        key_of(#[trigger] after[j]),
    ) by {
        if i < k {
            assert(after[i] == list[i]);
        } else if i > k {
            assert(after[i] == list[i - 1]);
        }
        if j < k {
            assert(after[j] == list[j]);
        } else if j > k {
            assert(after[j] == list[j - 1]);
        }
    }
}

/// Put an aggregate in its place, unless its item and lot is there already.
/// The result is the place.
fn place(list: &mut Vec<Aggregate>, a: Aggregate) -> (r: Option<usize>)
    requires
        in_order(old(list)@),
    ensures
        in_order(final(list)@),
        match r {
            Some(k) => k <= old(list)@.len() && final(list)@ == old(list)@.insert(k as int, a),
            None => final(list)@ == old(list)@ && lists(old(list)@, key_of(a)),
        },
{
    let ghost before = list@;
    let key = (a.item_id, a.batch_id);
    let mut k: usize = 0;
    while k < list.len() && goes_first((list[k].item_id, list[k].batch_id), key)
        invariant
            k <= list.len(),
            list@ == before,
            key == key_of(a),
            forall|i: int| 0 <= i < k ==> key_before(key_of(#[trigger] list@[i]), key),
        decreases list.len() - k,
    {
        k = k + 1;
    }
    if k < list.len() && list[k].item_id == a.item_id && list[k].batch_id == a.batch_id {
        assert(key_of(before[k as int]) == key_of(a));
        return None;
    }
    proof {
        if k < before.len() {
            assert(key_before(key, key_of(before[k as int])));
        }
        assert forall|i: int| k <= i < before.len() implies key_before(
            key,
            key_of(#[trigger] before[i]),
        ) by {
            if i > k {
                assert(key_before(key_of(before[k as int]), key_of(before[i])));
            }
        }
        lemma_inserted_in_order(before, k as int, a);
    }
    list.insert(k, a);
    Some(k)
}

/// What stands in a list still does after an insertion.
proof fn lemma_still_lists(list: Seq<Aggregate>, k: int, a: Aggregate, key: Key)
    requires
        0 <= k <= list.len(),
    ensures
        lists(list, key) ==> lists(list.insert(k, a), key),
        lists(list.insert(k, a), key_of(a)),
{
    let after = list.insert(k, a);
    assert(key_of(after[k]) == key_of(a));
    if lists(list, key) {
        let i = choose|i: int| 0 <= i < list.len() && key_of(#[trigger] list[i]) == key;
        if i < k {
            assert(after[i] == list[i]);
        } else {
            assert(after[i + 1] == list[i]);
        }
    }
}

/// Add up what a session moved, net of refunds, per item and lot.
pub fn aggregate_lines(book: &SaleService, session: u128) -> (r: Result<Vec<Aggregate>, Error>)
    ensures
        match r {
            Ok(list) => is_aggregated(list@, book@, session) && list@.len() <= book@.lines.len(),
            Err(e) => e@ == Refusal::Overflow && aggregation_overflows(book@, session),
        },
{
    let ghost all = book@.lines;
    let mut out: Vec<Aggregate> = Vec::new();
    let mut i: usize = 0;
    while i < book.lines.len()
        invariant
            i <= book.lines.len(),
            all == book@.lines,
            in_order(out@),
            out@.len() <= i,
            forall|a: int| 0 <= a < out@.len() ==> is_net(#[trigger] out@[a], book@, session),
            forall|k: int|
                0 <= k < i && kind_in(book@.orders, session, (#[trigger] all[k]).order_id)
                    is Some ==> accounted(out@, book@, session, all[k]),
        decreases book.lines.len() - i,
    {
        let l = &book.lines[i];
        assert(all[i as int] == l@);
        if find_kind(book, session, l.order_id).is_some() {
            let net = match net_of(book, session, (l.item_id, l.batch_id)) {
                Some(n) => n,
                None => {
                    assert(kind_in(book@.orders, session, all[i as int].order_id) is Some);
                    return Err(Error::Overflow);
                },
            };
            if !net.is_zero() {
                let a = Aggregate { item_id: l.item_id, batch_id: l.batch_id, net_qty: net };
                let ghost held = out@;
                let spot = place(&mut out, a);
                proof {
                    assert(is_net(a, book@, session));
                    if let Some(at) = spot {
                        assert forall|x: int| 0 <= x < out@.len() implies is_net(
                            #[trigger] out@[x],
                            book@,
                            session,
                        ) by {
                            if x < at {
                                assert(out@[x] == held[x]);
                            } else if x > at {
                                assert(out@[x] == held[x - 1]);
                            }
                        }
                        assert forall|k: int|
                            0 <= k <= i && kind_in(
                                book@.orders,
                                session,
                                (#[trigger] all[k]).order_id,
                            ) is Some implies accounted(out@, book@, session, all[k]) by {
                            lemma_still_lists(
                                held,
                                at as int,
                                a,
                                (all[k].item_id, all[k].batch_id),
                            );
                            if k < i {
                                assert(accounted(held, book@, session, all[k]));
                            }
                        }
                    }
                }
            }
        }
        i = i + 1;
    }
    Ok(out)
}

// ---------------------------------------------------------------------------
// The stock movement
// ---------------------------------------------------------------------------

/// The items, their units and their lots.
#[derive(Debug)]
pub struct Stockroom {
    pub items: Vec<Item>,
    pub uoms: Vec<Uom>,
    pub batches: Vec<Batch>,
}

/// Whether an aggregate moves stock: only stockable items do; services sold at
/// the till have no stock side at all.
pub open spec fn moves_stock(a: Aggregate, items: Seq<Item>) -> bool {
    first_where(items, item_id(a.item_id)) matches Some(i) && i.item_type == ItemType::Stockable
}

/// Those of the first `n` aggregates that move stock.
pub open spec fn stocked_to(list: Seq<Aggregate>, items: Seq<Item>, n: nat) -> Seq<Aggregate> {
    kept_to(list, |a: Aggregate| moves_stock(a, items), n)
}

pub open spec fn positions(levels: Seq<Level>) -> Seq<Position> {
    levels.map_values(|l: Level| l@)
}

pub open spec fn stands_at(warehouse: u128, item: u128) -> spec_fn(Position) -> bool {
    |l: Position| l.warehouse_id == warehouse && l.item_id == item
}

/// What is held of an item that nothing was ever held of.
pub open spec fn nothing_at(warehouse: u128, item: u128) -> Position {
    Position {
        item_id: item,
        warehouse_id: warehouse,
        on_hand: zero(),
        reserved: zero(),
        on_order: zero(),
        value: zero(),
        reorder_level: None,
        reorder_qty: None,
    }
}

/// The levels, with one for each of the first `n` aggregates.
pub open spec fn opened_to(levels: Seq<Position>, list: Seq<Aggregate>, warehouse: u128, n: nat) -> Seq<
    Position,
>
    decreases n,
{
    if n == 0 {
        levels
    } else {
        let rest = opened_to(levels, list, warehouse, (n - 1) as nat);
        let item = list[n - 1].item_id;
        if first_from(rest, stands_at(warehouse, item), 0) is None {
            rest.push(nothing_at(warehouse, item))
        } else {
            rest
        }
    }
}

/// The average cost of an item before anything of the session moved.
pub open spec fn start_average(start: Seq<Position>, warehouse: u128, item: u128) -> Option<Num> {
    let level = first_where(start, stands_at(warehouse, item))->0;
    average(level.value, level.on_hand)
}

/// How an aggregate moves: what was sold goes out at the moving average; where
/// more came back than was sold, the item is restocked at the average it had.
pub open spec fn flow_of(a: Aggregate, avg: Num) -> Flow {
    if a.net_qty@.0 > 0 {
        Flow::Issue { qty: a.net_qty@, covered: zero() }
    } else {
        Flow::Receipt { qty: negated(a.net_qty@), unit_cost: avg }
    }
}

/// What the movement of one aggregate does to its level.
pub open spec fn step_effect(
    room: Stockroom,
    start: Seq<Position>,
    levels: Seq<Position>,
    warehouse: u128,
    a: Aggregate,
) -> Result<Effect, Refusal> {
    let item = first_where(room.items@, item_id(a.item_id))->0;
    match first_where(room.uoms@, uom_id(item.uom_id)) {
        None => Err(Refusal::Internal("stock uom missing for "@ + item.sku@)),
        Some(uom) => movement_effect(
            first_where(levels, stands_at(warehouse, a.item_id))->0,
            item,
            uom,
            flow_of(a, start_average(start, warehouse, a.item_id)->0),
        ),
    }
}

/// The levels and the effects after the first `n` aggregates have moved, or why
/// one of them was refused.
pub open spec fn stepped_to(
    room: Stockroom,
    start: Seq<Position>,
    warehouse: u128,
    list: Seq<Aggregate>,
    n: nat,
) -> Result<(Seq<Position>, Seq<Effect>), Refusal>
    decreases n,
{
    if n == 0 {
        Ok((start, Seq::empty()))
    } else {
        match stepped_to(room, start, warehouse, list, (n - 1) as nat) {
            Err(r) => Err(r),
            Ok((levels, effects)) => {
                let a = list[n - 1];
                match step_effect(room, start, levels, warehouse, a) {
                    Err(r) => Err(r),
                    Ok(e) => {
                        let i = first_from(levels, stands_at(warehouse, a.item_id), 0)->0;
                        Ok((levels.update(i, level_after(levels[i], e)), effects.push(e)))
                    },
                }
            },
        }
    }
}

/// The levels and the effects of a consolidation, or why it is refused.
pub open spec fn consolidated(
    room: Stockroom,
    levels: Seq<Position>,
    warehouse: u128,
    list: Seq<Aggregate>,
) -> Result<(Seq<Position>, Seq<Effect>), Refusal> {
    let stocked = stocked_to(list, room.items@, list.len());
    let start = opened_to(levels, stocked, warehouse, stocked.len());
    if exists|i: int|
        0 <= i < stocked.len() && start_average(
            start,
            warehouse,
            (#[trigger] stocked[i]).item_id,
        ) is None {
        Err(Refusal::Overflow)
    } else {
        stepped_to(room, start, warehouse, stocked, stocked.len())
    }
}

/// A line of the movement.
#[derive(Debug)]
pub struct ConsolidatedLine {
    pub id: u128,
    pub line_no: usize,
    pub item_id: u128,
    pub qty: Decimal,
    pub batch_id: Option<u128>,
    pub batch_no: Option<String>,
}

/// The name of a lot, where it is known.
pub open spec fn lot_name(batches: Seq<Batch>, lot: Option<u128>) -> Option<Seq<char>> {
    match lot {
        None => None,
        Some(id) => match first_where(batches, batch_id(id)) {
            Some(b) => Some(b.batch_no@),
            None => None,
        },
    }
}

pub open spec fn magnitude(n: Num) -> Num {
    if n.0 < 0 {
        negated(n)
    } else {
        n
    }
}

/// Whether a line of the movement is that of an aggregate.
pub open spec fn is_line_of(
    l: ConsolidatedLine,
    a: Aggregate,
    batches: Seq<Batch>,
    id: u128,
    line_no: int,
) -> bool {
    &&& l.id == id
    &&& l.line_no == line_no
    &&& l.item_id == a.item_id
    &&& l.qty@ == magnitude(a.net_qty@)
    &&& l.batch_id == a.batch_id
    &&& opt_text(l.batch_no) == lot_name(batches, a.batch_id)
}

/// Whether a ledger row is that of an aggregate.
pub open spec fn is_stock_row(
    row: LedgerRow,
    a: Aggregate,
    e: Effect,
    move_id: u128,
    line_id: u128,
    item: Item,
    warehouse: u128,
    on: Date,
) -> bool {
    &&& is_row_of(row, e)
    &&& row.move_id == move_id
    &&& row.move_line_id == line_id
    &&& row.item_id == item.id
    &&& row.warehouse_id == warehouse
    &&& row.batch_id == a.batch_id
    &&& row.entry_date == on
}

/// What a consolidation does to stock: the levels after it, the lines of the
/// movement, and the rows of the ledger.
#[derive(Debug)]
pub struct StockOutcome {
    pub levels: Vec<Level>,
    pub lines: Vec<ConsolidatedLine>,
    pub rows: Vec<LedgerRow>,
}

/// Which movement it is, when, where, and what its lines are called.
#[derive(Debug)]
pub struct MoveNaming {
    pub move_id: u128,
    pub line_ids: Vec<u128>,
    pub warehouse_id: u128,
    pub entry_date: Date,
}

fn stocked(list: &Vec<Aggregate>, items: &Vec<Item>) -> (r: Vec<Aggregate>)
    ensures
        r@ == stocked_to(list@, items@, list@.len()),
        r@.len() <= list@.len(),
        forall|i: int| 0 <= i < r@.len() ==> moves_stock(#[trigger] r@[i], items@),
{
    let mut out: Vec<Aggregate> = Vec::new();
    let mut i: usize = 0;
    while i < list.len()
        invariant
            i <= list.len(),
            out@ == stocked_to(list@, items@, i as nat),
            out@.len() <= i,
            forall|k: int| 0 <= k < out@.len() ==> moves_stock(#[trigger] out@[k], items@),
        decreases list.len() - i,
    {
        if let Some(k) = find_item_by_id(items, list[i].item_id) {
            if items[k].item_type == ItemType::Stockable {
                out.push(list[i]);
            }
        }
        i = i + 1;
    }
    out
}

fn find_level(levels: &Vec<Level>, warehouse: u128, item: u128) -> (r: Option<usize>)
    ensures
        match r {
            Some(i) => i < levels@.len() && first_from(
                positions(levels@),
                stands_at(warehouse, item),
                0,
            ) == Some(i as int) && levels@[i as int].warehouse_id == warehouse,
            None => first_from(positions(levels@), stands_at(warehouse, item), 0) is None,
        },
{
    find_viewed(levels, Ghost(stands_at(warehouse, item)), |x: &Level| -> (b: bool)
        ensures
            b == stands_at(warehouse, item)(x@),
        { x.warehouse_id == warehouse && x.item_id == item })
}

proof fn lemma_found_after_push(s: Seq<Position>, p: spec_fn(Position) -> bool, x: Position)
    ensures
        first_from(s, p, 0) is Some ==> first_from(s.push(x), p, 0) == first_from(s, p, 0),
        p(x) ==> first_from(s.push(x), p, 0) is Some,
{
    let t = s.push(x);
    lemma_first_from(s, p, 0);
    lemma_first_from(t, p, 0);
    assert(t[s.len() as int] == x);
    assert forall|i: int| 0 <= i < s.len() implies t[i] == s[i] by {}
    if let Some(i) = first_from(s, p, 0) {
        assert(p(t[i]));
        let j = first_from(t, p, 0)->0;
        if j < i {
            assert(p(s[j]));
        }
        if i < j {
            assert(!p(t[i]));
        }
    }
}

/// Every one of the first `n` aggregates has its level once they are opened.
proof fn lemma_opened(levels: Seq<Position>, list: Seq<Aggregate>, warehouse: u128, n: nat)
    requires
        n <= list.len(),
    ensures
        forall|k: int|
            0 <= k < n ==> first_from(
                opened_to(levels, list, warehouse, n),
                stands_at(warehouse, (#[trigger] list[k]).item_id),
                0,
            ) is Some,
    decreases n,
{
    if n > 0 {
        lemma_opened(levels, list, warehouse, (n - 1) as nat);
        let rest = opened_to(levels, list, warehouse, (n - 1) as nat);
        let item = list[n - 1].item_id;
        assert forall|k: int| 0 <= k < n implies first_from(
            opened_to(levels, list, warehouse, n),
            stands_at(warehouse, (#[trigger] list[k]).item_id),
            0,
        ) is Some by {
            lemma_found_after_push(
                rest,
                stands_at(warehouse, list[k].item_id),
                nothing_at(warehouse, item),
            );
        }
    }
}

/// Moving stock leaves every level where it was.
proof fn lemma_places_kept(s: Seq<Position>, i: int, next: Position, p: spec_fn(Position) -> bool)
    requires
        0 <= i < s.len(),
        p(next) == p(s[i]),
    ensures
        first_from(s.update(i, next), p, 0) == first_from(s, p, 0),
{
    lemma_places_kept_from(s, i, next, p, 0);
}

proof fn lemma_places_kept_from(
    s: Seq<Position>,
    i: int,
    next: Position,
    p: spec_fn(Position) -> bool,
    from: int,
)
    requires
        0 <= i < s.len(),
        0 <= from,
        p(next) == p(s[i]),
    ensures
        first_from(s.update(i, next), p, from) == first_from(s, p, from),
    decreases s.len() - from,
{
    if from < s.len() {
        lemma_places_kept_from(s, i, next, p, from + 1);
    }
}

fn copy_levels(levels: &Vec<Level>) -> (r: Vec<Level>)
    ensures
        r@ == levels@,
{
    let mut out: Vec<Level> = Vec::new();
    let mut i: usize = 0;
    while i < levels.len()
        invariant
            i <= levels.len(),
            out@ == levels@.take(i as int),
        decreases levels.len() - i,
    {
        out.push(levels[i]);
        assert(out@ =~= levels@.take(i + 1));
        i = i + 1;
    }
    assert(out@ =~= levels@);
    out
}

fn open_levels(levels: &Vec<Level>, list: &Vec<Aggregate>, warehouse: u128) -> (r: Vec<Level>)
    ensures
        positions(r@) == opened_to(positions(levels@), list@, warehouse, list@.len()),
{
    let mut out = copy_levels(levels);
    let mut i: usize = 0;
    while i < list.len()
        invariant
            i <= list.len(),
            positions(out@) == opened_to(positions(levels@), list@, warehouse, i as nat),
        decreases list.len() - i,
    {
        let item = list[i].item_id;
        if find_level(&out, warehouse, item).is_none() {
            let ghost held = positions(out@);
            let level = Level {
                item_id: item,
                warehouse_id: warehouse,
                on_hand: Decimal::zero(),
                reserved: Decimal::zero(),
                on_order: Decimal::zero(),
                value: Decimal::zero(),
                reorder_level: None,
                reorder_qty: None,
            };
            out.push(level);
            assert(positions(out@) =~= held.push(level@));
        }
        i = i + 1;
    }
    out
}

/// The average cost of each aggregate's item, before anything moves.
fn start_averages(levels: &Vec<Level>, list: &Vec<Aggregate>, warehouse: u128) -> (r: Result<
    Vec<Decimal>,
    Error,
>)
    requires
        forall|k: int|
            0 <= k < list@.len() ==> first_from(
                positions(levels@),
                stands_at(warehouse, (#[trigger] list@[k]).item_id),
                0,
            ) is Some,
    ensures
        match r {
            Ok(v) => v@.len() == list@.len() && forall|k: int|
                0 <= k < list@.len() ==> start_average(
                    positions(levels@),
                    warehouse,
                    (#[trigger] list@[k]).item_id,
                ) == Some(v@[k]@),
            Err(e) => e@ == Refusal::Overflow && exists|k: int|
                0 <= k < list@.len() && start_average(
                    positions(levels@),
                    warehouse,
                    (#[trigger] list@[k]).item_id,
                ) is None,
        },
{
    let mut out: Vec<Decimal> = Vec::new();
    let mut i: usize = 0;
    while i < list.len()
        invariant
            i <= list.len(),
            out@.len() == i,
            forall|k: int|
                0 <= k < list@.len() ==> first_from(
                    positions(levels@),
                    stands_at(warehouse, (#[trigger] list@[k]).item_id),
                    0,
                ) is Some,
            forall|k: int|
                0 <= k < i ==> start_average(
                    positions(levels@),
                    warehouse,
                    (#[trigger] list@[k]).item_id,
                ) == Some(out@[k]@),
        decreases list.len() - i,
    {
        assert(first_from(
            positions(levels@),
            stands_at(warehouse, list@[i as int].item_id),
            0,
        ) is Some);
        if let Some(k) = find_level(levels, warehouse, list[i].item_id) {
            assert(positions(levels@)[k as int] == levels@[k as int]@);
            match level_average(&levels[k]) {
                Ok(a) => {
                    out.push(a);
                },
                Err(e) => {
                    assert(start_average(
                        positions(levels@),
                        warehouse,
                        list@[i as int].item_id,
                    ) is None);
                    return Err(e);
                },
            }
        }
        i = i + 1;
    }
    Ok(out)
}

fn find_lot_name(batches: &Vec<Batch>, lot: Option<u128>) -> (r: Option<String>)
    ensures
        opt_text(r) == lot_name(batches@, lot),
{
    match lot {
        None => None,
        Some(id) => {
            let found = find(batches, Ghost(batch_id(id)), |x: &Batch| -> (b: bool)
                ensures
                    b == batch_id(id)(*x),
                { x.id == id });
            match found {
                Some(i) => Some(batches[i].batch_no.clone()),
                None => None,
            }
        },
    }
}

proof fn lemma_steps_stop(
    room: Stockroom,
    start: Seq<Position>,
    warehouse: u128,
    list: Seq<Aggregate>,
    i: nat,
    n: nat,
)
    requires
        i <= n,
        stepped_to(room, start, warehouse, list, i) is Err,
    ensures
        stepped_to(room, start, warehouse, list, n) == stepped_to(room, start, warehouse, list, i),
    decreases n,
{
    if i < n {
        lemma_steps_stop(room, start, warehouse, list, i, (n - 1) as nat);
    }
}

/// Whether an outcome is that of a consolidation.
pub open spec fn is_outcome(
    out: StockOutcome,
    room: Stockroom,
    levels: Seq<Level>,
    list: Seq<Aggregate>,
    naming: MoveNaming,
) -> bool {
    let stocked = stocked_to(list, room.items@, list.len());
    match consolidated(room, positions(levels), naming.warehouse_id, list) {
        Err(_) => false,
        Ok((after, effects)) => {
            &&& positions(out.levels@) == after
            &&& out.lines@.len() == stocked.len()
            &&& out.rows@.len() == stocked.len()
            &&& forall|i: int|
                0 <= i < stocked.len() ==> is_line_of(
                    #[trigger] out.lines@[i],
                    stocked[i],
                    room.batches@,
                    naming.line_ids@[i],
                    i + 1,
                )
            &&& forall|i: int|
                0 <= i < stocked.len() ==> is_stock_row(
                    #[trigger] out.rows@[i],
                    stocked[i],
                    effects[i],
                    naming.move_id,
                    naming.line_ids@[i],
                    first_where(room.items@, item_id(stocked[i].item_id))->0,
                    naming.warehouse_id,
                    naming.entry_date,
                )
        },
    }
}

/// Move what a session sold, net of refunds. The levels that are handed in
/// stay as they are; the outcome holds them as they are after the movement.
pub fn consolidate_stock(
    room: &Stockroom,
    levels: &Vec<Level>,
    list: &Vec<Aggregate>,
    naming: &MoveNaming,
) -> (r: Result<StockOutcome, Error>)
    requires
        naming.line_ids@.len() >= list@.len(),
    ensures
        match r {
            Ok(out) => is_outcome(out, *room, levels@, list@, *naming),
            Err(e) => consolidated(
                *room,
                positions(levels@),
                naming.warehouse_id,
                list@,
            ) == Err::<(Seq<Position>, Seq<Effect>), Refusal>(e@),
        },
{
    let warehouse = naming.warehouse_id;
    let moving = stocked(list, &room.items);
    let mut after = open_levels(levels, &moving, warehouse);
    let ghost start = positions(after@);
    proof {
        lemma_opened(positions(levels@), moving@, warehouse, moving@.len());
    }
    let averages = start_averages(&after, &moving, warehouse)?;
    let mut lines: Vec<ConsolidatedLine> = Vec::new();
    let mut rows: Vec<LedgerRow> = Vec::new();
    let ghost mut effects: Seq<Effect> = Seq::empty();
    let mut i: usize = 0;
    proof {
        assert(start == opened_to(positions(levels@), moving@, warehouse, moving@.len()));
        assert(consolidated(*room, positions(levels@), warehouse, list@) == stepped_to(
            *room,
            start,
            warehouse,
            moving@,
            moving@.len(),
        ));
    }
    while i < moving.len()
        invariant
            i <= moving.len(),
            warehouse == naming.warehouse_id,
            naming.line_ids@.len() >= moving@.len(),
            moving@ == stocked_to(list@, room.items@, list@.len()),
            forall|k: int| 0 <= k < moving@.len() ==> moves_stock(#[trigger] moving@[k], room.items@),
            averages@.len() == moving@.len(),
            forall|k: int|
                0 <= k < moving@.len() ==> start_average(
                    start,
                    warehouse,
                    (#[trigger] moving@[k]).item_id,
                ) == Some(averages@[k]@),
            forall|k: int|
                0 <= k < moving@.len() ==> first_from(
                    positions(after@),
                    stands_at(warehouse, (#[trigger] moving@[k]).item_id),
                    0,
                ) is Some,
            consolidated(*room, positions(levels@), warehouse, list@) == stepped_to(
                *room,
                start,
                warehouse,
                moving@,
                moving@.len(),
            ),
            stepped_to(*room, start, warehouse, moving@, i as nat) == Ok::<
                (Seq<Position>, Seq<Effect>),
                Refusal,
            >((positions(after@), effects)),
            effects.len() == i,
            lines@.len() == i,
            rows@.len() == i,
            forall|k: int|
                0 <= k < i ==> is_line_of(
                    #[trigger] lines@[k],
                    moving@[k],
                    room.batches@,
                    naming.line_ids@[k],
                    k + 1,
                ),
            forall|k: int|
                0 <= k < i ==> is_stock_row(
                    #[trigger] rows@[k],
                    moving@[k],
                    effects[k],
                    naming.move_id,
                    naming.line_ids@[k],
                    first_where(room.items@, item_id(moving@[k].item_id))->0,
                    warehouse,
                    naming.entry_date,
                ),
        decreases moving.len() - i,
    {
        let a = moving[i];
        let ghost held = positions(after@);
        proof {
            assert(moves_stock(moving@[i as int], room.items@));
            assert(first_from(held, stands_at(warehouse, moving@[i as int].item_id), 0) is Some);
            assert(start_average(start, warehouse, moving@[i as int].item_id) == Some(
                averages@[i as int]@,
            ));
            if stepped_to(*room, start, warehouse, moving@, (i + 1) as nat) is Err {
                lemma_steps_stop(
                    *room,
                    start,
                    warehouse,
                    moving@,
                    (i + 1) as nat,
                    moving@.len(),
                );
            }
        }
        if let Some(m) = find_item_by_id(&room.items, a.item_id) {
            let item = &room.items[m];
            let u = match find_uom_by_id(&room.uoms, item.uom_id) {
                Some(u) => u,
                None => {
                    return Err(
                        Error::Internal(cat2("stock uom missing for ", item.sku.as_str())),
                    );
                },
            };
            if let Some(k) = find_level(&after, warehouse, a.item_id) {
                let outward = a.net_qty.is_positive();
                let qty = if a.net_qty.is_negative() {
                    a.net_qty.negate()
                } else {
                    a.net_qty
                };
                let mv = if outward {
                    Movement::Issue { qty: a.net_qty, covered_by_reservation: Decimal::zero() }
                } else {
                    Movement::Receipt { qty: a.net_qty.negate(), unit_cost: averages[i] }
                };
                assert(mv@ == flow_of(a, averages@[i as int]@));
                assert(held[k as int] == after@[k as int]@);
                let row = StockService::apply(
                    naming.move_id,
                    naming.line_ids[i],
                    naming.entry_date,
                    item,
                    &room.uoms[u],
                    &mut after[k],
                    a.batch_id,
                    mv,
                )?;
                let line = ConsolidatedLine {
                    id: naming.line_ids[i],
                    line_no: i + 1,
                    item_id: a.item_id,
                    qty,
                    batch_id: a.batch_id,
                    batch_no: find_lot_name(&room.batches, a.batch_id),
                };
                proof {
                    let e = step_effect(*room, start, held, warehouse, a)->Ok_0;
                    let next = level_after(held[k as int], e);
                    assert(positions(after@) =~= held.update(k as int, next));
                    effects = effects.push(e);
                    assert forall|x: int| 0 <= x < moving@.len() implies first_from(
                        positions(after@),
                        stands_at(warehouse, (#[trigger] moving@[x]).item_id),
                        0,
                    ) is Some by {
                        lemma_places_kept(
                            held,
                            k as int,
                            next,
                            stands_at(warehouse, moving@[x].item_id),
                        );
                    }
                }
                lines.push(line);
                rows.push(row);
            }
        }
        i = i + 1;
    }
    Ok(StockOutcome { levels: after, lines, rows })
}

// ---------------------------------------------------------------------------
// The takings
// ---------------------------------------------------------------------------

/// What goes into the entry of takings: what each tender clears, cash as it
/// was counted, what was over or short, and the revenue and tax against it.
#[derive(Clone, Copy, Debug)]
pub struct Takings {
    pub cash: Decimal,
    pub mpesa: Decimal,
    pub card: Decimal,
    pub over_short: Decimal,
    pub net_sales: Decimal,
    pub tax_net: Decimal,
}

/// How much more cash there was than expected.
pub open spec fn cash_variance(counts: Seq<SessionCount>, session: u128) -> Option<Num> {
    match stored_count(counts, session, "cash"@, true) {
        Some(c) => minus(c.counted@, c.expected@),
        None => Some(zero()),
    }
}

/// Whether amounts are the takings of a session.
pub open spec fn are_takings(
    t: Takings,
    m: SessionMoney,
    counts: Seq<SessionCount>,
    session: u128,
) -> bool {
    &&& cash_variance(counts, session) == Some(t.over_short@)
    &&& sum_of(cash_net(m), cash_variance(counts, session)) == Some(t.cash@)
    &&& mpesa_net(m) == Some(t.mpesa@)
    &&& card_net(m) == Some(t.card@)
    &&& net_of_tax(m) == Some(t.net_sales@)
    &&& tax_net_of(m) == Some(t.tax_net@)
}

/// Whether some amount of the takings leaves the range.
pub open spec fn takings_overflow(m: SessionMoney, counts: Seq<SessionCount>, session: u128) -> bool {
    ||| sum_of(cash_net(m), cash_variance(counts, session)) is None
    ||| mpesa_net(m) is None
    ||| card_net(m) is None
    ||| net_of_tax(m) is None
    ||| tax_net_of(m) is None
}

/// Add up the takings of a session.
pub fn takings_of(m: &SessionMoney, counts: &Vec<SessionCount>, session: u128) -> (r: Result<
    Takings,
    Error,
>)
    ensures
        match r {
            Ok(t) => are_takings(t, *m, counts@, session),
            Err(e) => e@ == Refusal::Overflow && takings_overflow(*m, counts@, session),
        },
{
    let over_short = match stored_row(counts, session, "cash", true) {
        Some(c) => in_range(c.counted.checked_sub(c.expected))?,
        None => Decimal::zero(),
    };
    let net = m.tender_net()?;
    let cash = in_range(net.cash.checked_add(over_short))?;
    let net_sales = m.net_sales()?;
    let tax_net = m.tax_net()?;
    Ok(Takings { cash, mpesa: net.mpesa, card: net.card, over_short, net_sales, tax_net })
}

// ---------------------------------------------------------------------------
// Closing
// ---------------------------------------------------------------------------

/// What a consolidation hands on to stock and to the ledger.
#[derive(Debug)]
pub struct Consolidation {
    /// The stock movement, where anything moves.
    pub movement: Option<StockOutcome>,
    pub takings: Takings,
    pub move_memo: String,
    pub move_source: String,
    pub cogs_memo: String,
    pub cogs_source: String,
    pub takings_memo: String,
    pub takings_source: String,
}

pub open spec fn source_of(session: u128) -> Seq<char> {
    "pos.session:"@ + id_text(session)
}

/// Whether the texts of a consolidation name their session.
pub open spec fn names(c: Consolidation, s: Session) -> bool {
    &&& c.move_memo@ == "POS session "@ + number_or_blank(opt_text(s.number)) + " consolidation"@
    &&& c.move_source@ == source_of(s.id)
    &&& c.cogs_memo@ == "POS session "@ + number_or_blank(opt_text(s.number)) + " cost of sales"@
    &&& c.cogs_source@ == source_of(s.id) + ":cogs"@
    &&& c.takings_memo@ == "POS session "@ + number_or_blank(opt_text(s.number)) + " takings"@
    &&& c.takings_source@ == source_of(s.id) + ":close"@
}

/// What moves stock and where it goes, when a session is consolidated.
#[derive(Debug)]
pub struct Move {
    pub id: u128,
    /// An id for each line that the movement may have.
    pub line_ids: Vec<u128>,
    pub entry_date: Date,
}

/// Why a session cannot be consolidated, where it cannot be.
pub open spec fn consolidation_refusal(
    sessions: Seq<Session>,
    registers: Seq<Register>,
    id: u128,
) -> Option<Refusal> {
    match first_where(sessions, session_id(id)) {
        None => Some(Refusal::NotFound("pos session "@ + id_text(id))),
        Some(s) => if s.status != SessionStatus::Closing {
            Some(Refusal::Internal("consolidation outside the closing state"@))
        } else if first_where(registers, register_id(s.register_id)) is None {
            Some(Refusal::Internal("session without a register"@))
        } else {
            None
        },
    }
}

/// Whether a consolidation is that of a session.
pub open spec fn is_consolidation(
    c: Consolidation,
    s: Session,
    book: Book,
    drawer: Seq<CashMovement>,
    counts: Seq<SessionCount>,
    room: Stockroom,
    levels: Seq<Level>,
    list: Seq<Aggregate>,
    naming: MoveNaming,
) -> bool {
    &&& is_aggregated(list, book, s.id)
    &&& match c.movement {
        Some(out) => stocked_to(list, room.items@, list.len()).len() > 0 && is_outcome(
            out,
            room,
            levels,
            list,
            naming,
        ),
        None => stocked_to(list, room.items@, list.len()).len() == 0,
    }
    &&& exists|m: SessionMoney|
        #[trigger] is_money(m, book, drawer, s.id) && are_takings(c.takings, m, counts, s.id)
    &&& names(c, s)
}

/// Why a consolidation that may go on can still fail: an amount leaves the
/// range, or stock refuses to move.
pub open spec fn fails_because(
    why: Refusal,
    s: Session,
    book: Book,
    drawer: Seq<CashMovement>,
    counts: Seq<SessionCount>,
    room: Stockroom,
    levels: Seq<Level>,
    warehouse: u128,
) -> bool {
    ||| why == Refusal::Overflow && aggregation_overflows(book, s.id)
    ||| why == Refusal::Overflow && !money_in_range(book, drawer, s.id)
    ||| why == Refusal::Overflow && exists|m: SessionMoney|
        #[trigger] is_money(m, book, drawer, s.id) && takings_overflow(m, counts, s.id)
    ||| exists|list: Seq<Aggregate>|
        #[trigger] is_aggregated(list, book, s.id) && consolidated(
            room,
            positions(levels),
            warehouse,
            list,
        ) == Err::<(Seq<Position>, Seq<Effect>), Refusal>(why)
}

/// What consolidating the session at place `i` comes to.
pub open spec fn consolidation_outcome(
    r: Result<Consolidation, Error>,
    before: SessionService,
    after: SessionService,
    i: int,
    book: Book,
    room: Stockroom,
    levels: Seq<Level>,
    naming: MoveNaming,
    by: Option<u128>,
    now: i64,
) -> bool {
    let s = before.sessions@[i];
    match r {
        Err(e) => fails_because(
            e@,
            s,
            book,
            before.drawer@,
            before.counts@,
            room,
            levels,
            naming.warehouse_id,
        ),
        Ok(c) => {
            let next = after.sessions@[i];
            &&& exists|list: Seq<Aggregate>|
                #[trigger] is_consolidation(
                    c,
                    s,
                    book,
                    before.drawer@,
                    before.counts@,
                    room,
                    levels,
                    list,
                    naming,
                )
            &&& next.gl_source matches Some(source) && source@ == source_of(s.id) + ":close"@
            &&& next == (Session {
                status: SessionStatus::Closed,
                closed_at: Some(now),
                closed_by: by,
                move_id: if c.movement is Some {
                    Some(naming.move_id)
                } else {
                    None
                },
                gl_source: next.gl_source,
                ..s
            })
            &&& after.sessions@ == before.sessions@.update(i, next)
        },
    }
}

impl SessionService {
    /// Consolidate a session that is closing, and close it: one stock movement
    /// of what was sold, net of refunds, and one entry of takings. Where that
    /// fails, nothing changes: the session stays closing.
    pub fn consolidate(
        &mut self,
        book: &SaleService,
        registers: &Vec<Register>,
        room: &Stockroom,
        levels: &Vec<Level>,
        id: u128,
        movement: Move,
        by: Option<u128>,
        now: i64,
    ) -> (r: Result<Consolidation, Error>)
        requires
            movement.line_ids@.len() >= book@.lines.len(),
        ensures
            final(self).drawer == old(self).drawer,
            final(self).counts == old(self).counts,
            r is Err ==> *final(self) == *old(self),
            match consolidation_refusal(old(self).sessions@, registers@, id) {
                Some(why) => refusal(r) == Some(why),
                None => {
                    let i = first_from(old(self).sessions@, session_id(id), 0)->0;
                    let s = old(self).sessions@[i];
                    consolidation_outcome(
                        r,
                        *old(self),
                        *final(self),
                        i,
                        book@,
                        *room,
                        levels@,
                        (MoveNaming {
                            move_id: movement.id,
                            line_ids: movement.line_ids,
                            warehouse_id: (first_where(
                                registers@,
                                register_id(s.register_id),
                            )->0).warehouse_id,
                            entry_date: movement.entry_date,
                        }),
                        by,
                        now,
                    )
                },
            },
    {
        let i = match find_session(&self.sessions, id) {
            Some(i) => i,
            None => {
                return Err(no_session(id));
            },
        };
        if self.sessions[i].status != SessionStatus::Closing {
            return Err(Error::Internal("consolidation outside the closing state".to_owned()));
        }
        let g = match find_register(registers, self.sessions[i].register_id) {
            Some(g) => g,
            None => {
                return Err(Error::Internal("session without a register".to_owned()));
            },
        };
        let naming = MoveNaming {
            move_id: movement.id,
            line_ids: movement.line_ids,
            warehouse_id: registers[g].warehouse_id,
            entry_date: movement.entry_date,
        };
        let list = aggregate_lines(book, id)?;
        let moving = stocked(&list, &room.items);
        let movement = if moving.len() > 0 {
            match consolidate_stock(room, levels, &list, &naming) {
                Ok(out) => Some(out),
                Err(e) => {
                    assert(is_aggregated(list@, book@, id));
                    return Err(e);
                },
            }
        } else {
            None
        };
        let m = session_money(book, &self.drawer, id)?;
        let takings = match takings_of(&m, &self.counts, id) {
            Ok(t) => t,
            Err(e) => {
                assert(is_money(m, book@, self.drawer@, id));
                return Err(e);
            },
        };
        let shown = show_id(id);
        let source = cat2("pos.session:", shown.as_str());
        let shown = show_or_blank(&self.sessions[i].number);
        let number = shown.as_str();
        let c = Consolidation {
            movement,
            takings,
            move_memo: cat3("POS session ", number, " consolidation"),
            cogs_memo: cat3("POS session ", number, " cost of sales"),
            cogs_source: cat2(source.as_str(), ":cogs"),
            takings_memo: cat3("POS session ", number, " takings"),
            takings_source: cat2(source.as_str(), ":close"),
            move_source: source,
        };
        proof {
            assert(is_money(m, book@, self.drawer@, id));
            assert(is_consolidation(
                c,
                self.sessions@[i as int],
                book@,
                self.drawer@,
                self.counts@,
                *room,
                levels@,
                list@,
                naming,
            ));
        }
        let gl_source = Some(cat2(c.move_source.as_str(), ":close"));
        let move_id = if c.movement.is_some() {
            Some(naming.move_id)
        } else {
            None
        };
        let row = &mut self.sessions[i];
        row.status = SessionStatus::Closed;
        row.closed_at = Some(now);
        row.closed_by = by;
        row.move_id = move_id;
        row.gl_source = gl_source;
        Ok(c)
    }
}

// ---------------------------------------------------------------------------
// Laws
// ---------------------------------------------------------------------------

/// The entry of takings balances: what the tenders clear, cash as it was
/// counted, less what was over, is the revenue and the tax. This rests on the
/// tenders of every order coming to its total.
pub proof fn takings_balance(t: Takings, m: SessionMoney, counts: Seq<SessionCount>, session: u128)
    requires
        are_takings(t, m, counts, session),
        modest(t.over_short@),
        modest(m.sales.cash@) && modest(m.sales.mpesa@) && modest(m.sales.card@),
        modest(m.refunds.cash@) && modest(m.refunds.mpesa@) && modest(m.refunds.card@),
        modest(m.gross_sales@) && modest(m.sales_tax@),
        modest(m.refund_total@) && modest(m.refund_tax@),
        worth(m.gross_sales@) == worth(m.sales.cash@) + worth(m.sales.mpesa@) + worth(
            m.sales.card@,
        ),
        worth(m.refund_total@) == worth(m.refunds.cash@) + worth(m.refunds.mpesa@) + worth(
            m.refunds.card@,
        ),
    ensures
        worth(t.cash@) + worth(t.mpesa@) + worth(t.card@) - worth(t.over_short@) == worth(
            t.net_sales@,
        ) + worth(t.tax_net@),
{
    let unit = limit() / 1000;
    tenders_match_revenue(m);
    lemma_combined_exact(m.sales.cash@, m.refunds.cash@, -1, kept_places(), unit, unit);
    lemma_combined_exact(cash_net(m)->0, t.over_short@, 1, kept_places(), 2 * unit, unit);
}

/// What came back as much as it was sold does not move: only what a session
/// kept out of the shop leaves its stock.
pub proof fn returned_goods_stay(list: Seq<Aggregate>, book: Book, session: u128, key: Key)
    requires
        is_aggregated(list, book, session),
        adds_exactly(movements(book, session, key)),
        worth_of(movements(book, session, key)) == 0,
    ensures
        !lists(list, key),
{
    let all = movements(book, session, key);
    lemma_sum_exact(all, all.len());
    lemma_worth_sign(net_qty(book, session, key)->0);
}

} // verus!
