//! What a session takes out of stock: what its orders sold, less what came back.

use super::consolidate::{
    consolidated, movements, moves, opened_to, outward, start_average, stepped_to, stocked_to,
    Aggregate, Key, Stockroom,
};
use super::reckoning::{is_new, lemma_kind_pushed, lemma_kind_voided, lemma_voided_place};
use super::refund::{void_refusal, voided};
use super::sale::{written, Book, LineFacts, OrderKind, Paid, Priced, Stub};
use super::session::Session;
use crate::decimal::{negated, rounded, Num};
use crate::scm::inventory::stock::Position;
use crate::sums::{
    lemma_none_picked, lemma_picked_appends, lemma_picked_splits, lemma_same_picks,
    lemma_worth_agrees, lemma_worth_negated, picked, picked_to, worth_of,
};
use vstd::prelude::*;

verus! {

/// The quantities of an item and lot on lines.
pub open spec fn quantities_of(lines: Seq<Priced>, key: Key) -> Seq<Num> {
    picked(lines, |l: Priced| (l.item_id, l.batch_id) == key, |l: Priced| l.qty)
}

/// The quantities of an item and lot on the stored lines of an order.
pub open spec fn quantities_on(book: Book, order: u128, key: Key) -> Seq<Num> {
    picked(
        book.lines,
        |l: LineFacts| l.order_id == order && (l.item_id, l.batch_id) == key,
        |l: LineFacts| l.qty,
    )
}

proof fn lemma_negated_sum<T>(
    s: Seq<T>,
    p: spec_fn(T) -> bool,
    f: spec_fn(T) -> Num,
    g: spec_fn(T) -> Num,
    n: nat,
)
    requires
        forall|i: int| 0 <= i < n && p(#[trigger] s[i]) ==> g(s[i]) == negated(f(s[i])),
    ensures
        worth_of(picked_to(s, p, g, n)) == -worth_of(picked_to(s, p, f, n)),
    decreases n,
{
    if n > 0 {
        lemma_negated_sum(s, p, f, g, (n - 1) as nat);
        let x = picked_to(s, p, f, (n - 1) as nat);
        let y = picked_to(s, p, g, (n - 1) as nat);
        lemma_worth_agrees(x.push(f(s[n - 1])), x, x.len());
        lemma_worth_agrees(y.push(g(s[n - 1])), y, y.len());
        lemma_worth_negated(f(s[n - 1]));
    }
}

/// An order moves what is on its lines: a sale in a session adds its quantities to what
/// the session takes out of stock, a refund takes them off again, item by item and
/// lot by lot, and an order of another session moves nothing in this one. The order
/// gets an id that none has yet.
pub proof fn sessions_take_out_what_they_sell(
    book: Book,
    t: Stub,
    lines: Seq<Priced>,
    tenders: Seq<Paid>,
    id: u128,
    number: Seq<char>,
    line_ids: Seq<u128>,
    session: u128,
    key: Key,
)
    requires
        is_new(book, id),
        forall|i: int| 0 <= i < book.lines.len() ==> (#[trigger] book.lines[i]).order_id != id,
    ensures
        ({
            let after = written(book, t, lines, tenders, id, number, line_ids);
            let sold = worth_of(quantities_of(lines, key));
            worth_of(movements(after, session, key)) == worth_of(movements(book, session, key))
                + if t.session_id != session {
                0
            } else if t.kind == OrderKind::Sale {
                sold
            } else {
                -sold
            }
        }),
{
    let after = written(book, t, lines, tenders, id, number, line_ids);
    let o = after.orders.last();
    assert(after.orders == book.orders.push(o));
    let p = moves(after.orders, session, key);
    let f = outward(after.orders, session);
    let q = moves(book.orders, session, key);
    let g = outward(book.orders, session);
    let new = after.lines.skip(book.lines.len() as int);
    assert(after.lines =~= book.lines + new);
    assert(new.len() == lines.len());
    lemma_picked_appends(book.lines, new, p, f, new.len());
    assert forall|i: int| 0 <= i < book.lines.len() implies p(#[trigger] book.lines[i]) == q(
        book.lines[i],
    ) && f(book.lines[i]) == g(book.lines[i]) by {
        lemma_kind_pushed(book.orders, o, session, book.lines[i].order_id);
    }
    lemma_same_picks(book.lines, book.lines, p, q, f, g, book.lines.len());
    lemma_kind_pushed(book.orders, o, session, id);
    let r = |l: Priced| (l.item_id, l.batch_id) == key;
    let h = |l: Priced| l.qty;
    let back = |l: Priced| negated(l.qty);
    assert forall|i: int| 0 <= i < new.len() implies #[trigger] new[i] == after.lines[book.lines.len()
        + i] by {}
    if t.session_id != session {
        lemma_none_picked(new, p, f, new.len());
    } else if t.kind == OrderKind::Sale {
        assert forall|i: int|
            #![trigger new[i]]
            #![trigger lines[i]]
            0 <= i < new.len() implies p(new[i]) == r(lines[i]) && f(new[i]) == h(lines[i]) by {
            assert(new[i] == after.lines[book.lines.len() + i]);
        }
        lemma_same_picks(new, lines, p, r, f, h, new.len());
    } else {
        assert forall|i: int|
            #![trigger new[i]]
            #![trigger lines[i]]
            0 <= i < new.len() implies p(new[i]) == r(lines[i]) && f(new[i]) == back(lines[i]) by {
            assert(new[i] == after.lines[book.lines.len() + i]);
        }
        lemma_same_picks(new, lines, p, r, f, back, new.len());
        lemma_negated_sum(lines, r, h, back, lines.len());
    }
}

/// A voided order moves nothing: what its session takes out of stock falls by what was
/// on the lines of a voided sale, and rises again by what was on those of a voided
/// refund. Orders are known by their ids.
pub proof fn voided_orders_move_nothing(
    book: Book,
    sessions: Seq<Session>,
    k: int,
    reason: Seq<char>,
    by: Option<u128>,
    now: i64,
    key: Key,
)
    requires
        0 <= k < book.orders.len(),
        forall|j: int|
            0 <= j < book.orders.len() && j != k ==> (#[trigger] book.orders[j]).id
                != book.orders[k].id,
        void_refusal(book, sessions, book.orders[k].id, reason) is None,
    ensures
        ({
            let o = book.orders[k];
            let after = voided(book, o.id, reason, by, now);
            let own = worth_of(quantities_on(book, o.id, key));
            worth_of(movements(after, o.session_id, key)) == worth_of(
                movements(book, o.session_id, key),
            ) + if o.kind == OrderKind::Sale {
                -own
            } else {
                own
            }
        }),
{
    let o = book.orders[k];
    let session = o.session_id;
    let after = voided(book, o.id, reason, by, now);
    lemma_voided_place(book, sessions, k, reason, by, now);
    let marked = after.orders[k];
    let all = book.lines;
    let p = moves(book.orders, session, key);
    let q = moves(after.orders, session, key);
    let f = outward(book.orders, session);
    let g = outward(after.orders, session);
    let r = |l: LineFacts| p(l) && l.order_id == o.id;
    let own = |l: LineFacts| l.order_id == o.id && (l.item_id, l.batch_id) == key;
    let h = |l: LineFacts| l.qty;
    let back = |l: LineFacts| negated(l.qty);
    assert forall|i: int| 0 <= i < all.len() implies p(#[trigger] all[i]) == (q(all[i]) || r(all[i]))
        && !(q(all[i]) && r(all[i])) by {
        lemma_kind_voided(book.orders, k, marked, session, all[i].order_id);
    }
    lemma_picked_splits(all, p, q, r, f, all.len());
    assert forall|i: int| 0 <= i < all.len() && q(#[trigger] all[i]) implies f(all[i]) == g(all[i]) by {
        lemma_kind_voided(book.orders, k, marked, session, all[i].order_id);
    }
    lemma_same_picks(all, all, q, q, f, g, all.len());
    lemma_kind_voided(book.orders, k, marked, session, o.id);
    assert(after.lines == all);
    if o.kind == OrderKind::Sale {
        lemma_same_picks(all, all, r, own, f, h, all.len());
    } else {
        lemma_same_picks(all, all, r, own, f, back, all.len());
        lemma_negated_sum(all, own, h, back, all.len());
    }
}

proof fn lemma_stepped(
    room: Stockroom,
    start: Seq<Position>,
    warehouse: u128,
    list: Seq<Aggregate>,
    n: nat,
)
    requires
        n <= list.len(),
        stepped_to(room, start, warehouse, list, n) is Ok,
    ensures
        ({
            let effects = (stepped_to(room, start, warehouse, list, n)->Ok_0).1;
            &&& effects.len() == n
            &&& forall|i: int|
                0 <= i < n ==> {
                    let e = #[trigger] effects[i];
                    &&& e.qty_delta == negated(list[i].net_qty@)
                    &&& list[i].net_qty@.0 <= 0 ==> e.unit_cost == rounded(
                        start_average(start, warehouse, list[i].item_id)->0,
                        6,
                    )
                }
        }),
    decreases n,
{
    if n > 0 {
        lemma_stepped(room, start, warehouse, list, (n - 1) as nat);
    }
}

/// Consolidating moves each item and lot by exactly what the session sold of it, net of
/// refunds: out of stock where more was sold, into it where more came back, and what
/// comes in comes at the average cost that the item had before anything moved.
pub proof fn consolidation_moves_what_was_sold(
    room: Stockroom,
    levels: Seq<Position>,
    warehouse: u128,
    list: Seq<Aggregate>,
)
    requires
        consolidated(room, levels, warehouse, list) is Ok,
    ensures
        ({
            let effects = (consolidated(room, levels, warehouse, list)->Ok_0).1;
            let stocked = stocked_to(list, room.items@, list.len());
            let start = opened_to(levels, stocked, warehouse, stocked.len());
            &&& effects.len() == stocked.len()
            &&& forall|i: int|
                0 <= i < stocked.len() ==> {
                    let e = #[trigger] effects[i];
                    &&& e.qty_delta == negated(stocked[i].net_qty@)
                    &&& stocked[i].net_qty@.0 <= 0 ==> e.unit_cost == rounded(
                        start_average(start, warehouse, stocked[i].item_id)->0,
                        6,
                    )
                }
        }),
{
    let stocked = stocked_to(list, room.items@, list.len());
    let start = opened_to(levels, stocked, warehouse, stocked.len());
    lemma_stepped(room, start, warehouse, stocked, stocked.len());
}

} // verus!
