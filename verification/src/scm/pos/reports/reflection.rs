//! How the reports follow the book: an order that is captured shows in the figures of
//! every window that holds its moment, and a window that does not hold it stays as
//! it was.

use super::queries::hours::{hour_row, in_hour, HourFacts};
use super::queries::items::{
    item_gross, item_net_to, item_qty, item_row, item_tax, its_net, its_qty, its_tax, line_as,
};
use super::queries::{kind_within, paid_as, percent, sold_as, tender_net, tender_total};
use crate::clock::{day_of, epoch, lies_in, midnight};
use crate::date::{day_number, Day};
use crate::decimal::{minus, over, rounded, times, worth, Num};
use crate::scm::inventory::item::Item;
use crate::scm::pos::reckoning::{applied, is_new};
use crate::scm::pos::sale::{
    written, Book, LineFacts, OrderFacts, OrderKind, OrderStatus, Paid, Priced, Stub,
};
use crate::scm::pos::takings::{its_amount, its_total};
use crate::search::{first_from, lemma_first_from};
use crate::sums::{
    adds_exactly, counted, difference_of, lemma_counted_push, lemma_none_picked,
    lemma_picked_appends, lemma_picked_push, lemma_same_picks, lemma_sum_exact, lemma_worth_agrees,
    picked, sum_of, total, worth_of,
};
use vstd::prelude::*;

verus! {

/// The number of the day that a moment falls into.
pub open spec fn day_number_at(at: int) -> int {
    day_number(epoch()) + at / 86_400_000_000
}

/// Whether the day of a moment lies in a window of days, both ends included; a missing end
/// is open.
pub open spec fn in_days(at: int, from: Option<Day>, to: Option<Day>) -> bool {
    &&& from matches Some(f) ==> day_number(f) <= day_number_at(at)
    &&& to matches Some(t) ==> day_number_at(at) <= day_number(t)
}

/// A window holds its days whole: a moment lies in it exactly where the moment's day does.
pub proof fn windows_hold_whole_days(at: int, from: Option<Day>, to: Option<Day>)
    ensures
        lies_in(at, from, to) <==> in_days(at, from, to),
        day_of(at) matches Some(d) ==> day_number(d) == day_number_at(at),
{
    reveal(day_of);
    let n = at / 86_400_000_000;
    if let Some(f) = from {
        let k = day_number(f) - day_number(epoch());
        assert(midnight(f) == k * 86_400_000_000);
    }
    if let Some(t) = to {
        let k = day_number(t) - day_number(epoch());
        assert(midnight(t) == k * 86_400_000_000);
    }
}

proof fn lemma_kind_pushed(
    orders: Seq<OrderFacts>,
    o: OrderFacts,
    id: u128,
    from: Option<Day>,
    to: Option<Day>,
)
    requires
        forall|i: int| 0 <= i < orders.len() ==> (#[trigger] orders[i]).id != o.id,
    ensures
        kind_within(orders.push(o), id, from, to) == if id == o.id {
            if o.status == OrderStatus::Captured && in_days(o.sold_at as int, from, to) {
                Some(o.kind)
            } else {
                None
            }
        } else {
            kind_within(orders, id, from, to)
        },
{
    let after = orders.push(o);
    let p = sold_as(id, from, to);
    windows_hold_whole_days(o.sold_at as int, from, to);
    lemma_first_from(orders, p, 0);
    lemma_first_from(after, p, 0);
    assert(after[orders.len() as int] == o);
    assert forall|i: int| 0 <= i < orders.len() implies after[i] == orders[i] by {}
    match first_from(after, p, 0) {
        Some(j) => {
            assert(p(after[j]));
            if j < orders.len() {
                assert(p(orders[j]));
                let k = first_from(orders, p, 0)->0;
                assert(p(after[k]));
            } else {
                if let Some(k) = first_from(orders, p, 0) {
                    assert(p(after[k]));
                }
            }
        },
        None => {
            assert(!p(after[orders.len() as int]));
            if let Some(k) = first_from(orders, p, 0) {
                assert(p(after[k]));
            }
        },
    }
}

/// The tender mix follows the payments: an order in the window adds what was applied by a
/// tender, to the cent, to what that tender took on sales, or gave on refunds; an order
/// outside it adds nothing. The order gets an id that none has yet.
pub proof fn the_mix_follows_the_payments(
    book: Book,
    t: Stub,
    lines: Seq<Priced>,
    tenders: Seq<Paid>,
    id: u128,
    number: Seq<char>,
    line_ids: Seq<u128>,
    kind: OrderKind,
    tender: Seq<char>,
    from: Option<Day>,
    to: Option<Day>,
)
    requires
        is_new(book, id),
        adds_exactly(
            picked(book.payments, paid_as(book.orders, kind, tender, from, to), its_amount()),
        ),
        ({
            let after = written(book, t, lines, tenders, id, number, line_ids);
            adds_exactly(
                picked(after.payments, paid_as(after.orders, kind, tender, from, to), its_amount()),
            )
        }),
    ensures
        ({
            let after = written(book, t, lines, tenders, id, number, line_ids);
            &&& tender_total(book, kind, tender, from, to) is Some
            &&& tender_total(after, kind, tender, from, to) is Some
            &&& worth(tender_total(after, kind, tender, from, to)->0) == worth(
                tender_total(book, kind, tender, from, to)->0,
            ) + if t.kind == kind && in_days(t.sold_at as int, from, to) {
                worth_of(applied(tenders, tender))
            } else {
                0
            }
        }),
{
    let after = written(book, t, lines, tenders, id, number, line_ids);
    let o = after.orders.last();
    let f = its_amount();
    let p = paid_as(after.orders, kind, tender, from, to);
    let q = paid_as(book.orders, kind, tender, from, to);
    assert(after.orders == book.orders.push(o));
    let new = after.payments.skip(book.payments.len() as int);
    assert(after.payments =~= book.payments + new);
    lemma_picked_appends(book.payments, new, p, f, new.len());
    assert forall|i: int| 0 <= i < book.payments.len() implies p(#[trigger] book.payments[i]) == q(
        book.payments[i],
    ) by {
        lemma_kind_pushed(book.orders, o, book.payments[i].order_id, from, to);
    }
    lemma_same_picks(book.payments, book.payments, p, q, f, f, book.payments.len());
    lemma_kind_pushed(book.orders, o, id, from, to);
    let r = |x: Paid| x.tender == tender;
    let g = |x: Paid| rounded(x.amount, 2);
    assert(new.len() == tenders.len());
    if t.kind == kind && in_days(t.sold_at as int, from, to) {
        assert forall|i: int|
            #![trigger new[i]]
            #![trigger tenders[i]]
            0 <= i < new.len() implies p(new[i]) == r(tenders[i]) && f(new[i]) == g(tenders[i]) by {
            assert(new[i] == after.payments[book.payments.len() + i]);
        }
        lemma_same_picks(new, tenders, p, r, f, g, new.len());
    } else {
        assert forall|i: int| 0 <= i < new.len() implies !p(#[trigger] new[i]) by {
            assert(new[i] == after.payments[book.payments.len() + i]);
        }
        lemma_none_picked(new, p, f, new.len());
    }
    let a = picked(book.payments, q, f);
    let b = picked(after.payments, p, f);
    lemma_sum_exact(a, a.len());
    lemma_sum_exact(b, b.len());
}

/// What a tender comes to is what it took less what it gave, and its share is that of all
/// takings, in per cent to one place; without takings there are no shares.
pub proof fn shares_are_of_the_net_takings(
    book: Book,
    tender: Seq<char>,
    from: Option<Day>,
    to: Option<Day>,
    part: Num,
    whole: Num,
)
    ensures
        tender_net(book, tender, from, to) == difference_of(
            tender_total(book, OrderKind::Sale, tender, from, to),
            tender_total(book, OrderKind::Refund, tender, from, to),
        ),
        whole.0 == 0 ==> percent(part, whole) == Some(None::<Num>),
        percent(part, whole) matches Some(Some(p)) ==> (times(part, (100, 0)) matches Some(product)
            && (over(product, whole) matches Some(q) && p == rounded(q, 1))),
{
}

/// What is sold of an item follows the lines: an order in the window adds the quantities of
/// the item on its lines to what was sold of it, or refunded; an order outside the
/// window adds nothing.
pub proof fn item_sales_follow_the_lines(
    book: Book,
    t: Stub,
    lines: Seq<Priced>,
    tenders: Seq<Paid>,
    id: u128,
    number: Seq<char>,
    line_ids: Seq<u128>,
    kind: OrderKind,
    item: u128,
    from: Option<Day>,
    to: Option<Day>,
)
    requires
        is_new(book, id),
        forall|i: int| 0 <= i < book.lines.len() ==> (#[trigger] book.lines[i]).order_id != id,
        adds_exactly(picked(book.lines, line_as(book.orders, kind, item, from, to), its_qty())),
        ({
            let after = written(book, t, lines, tenders, id, number, line_ids);
            adds_exactly(picked(after.lines, line_as(after.orders, kind, item, from, to), its_qty()))
        }),
    ensures
        ({
            let after = written(book, t, lines, tenders, id, number, line_ids);
            let sold = worth_of(picked(lines, |l: Priced| l.item_id == item, |l: Priced| l.qty));
            &&& item_qty(book, kind, item, from, to) is Some
            &&& item_qty(after, kind, item, from, to) is Some
            &&& worth(item_qty(after, kind, item, from, to)->0) == worth(
                item_qty(book, kind, item, from, to)->0,
            ) + if t.kind == kind && in_days(t.sold_at as int, from, to) {
                sold
            } else {
                0
            }
        }),
{
    let after = written(book, t, lines, tenders, id, number, line_ids);
    let o = after.orders.last();
    let f = its_qty();
    let p = line_as(after.orders, kind, item, from, to);
    let q = line_as(book.orders, kind, item, from, to);
    assert(after.orders == book.orders.push(o));
    let new = after.lines.skip(book.lines.len() as int);
    assert(after.lines =~= book.lines + new);
    assert(new.len() == lines.len());
    lemma_picked_appends(book.lines, new, p, f, new.len());
    assert forall|i: int| 0 <= i < book.lines.len() implies p(#[trigger] book.lines[i]) == q(
        book.lines[i],
    ) by {
        lemma_kind_pushed(book.orders, o, book.lines[i].order_id, from, to);
    }
    lemma_same_picks(book.lines, book.lines, p, q, f, f, book.lines.len());
    lemma_kind_pushed(book.orders, o, id, from, to);
    let r = |l: Priced| l.item_id == item;
    let g = |l: Priced| l.qty;
    if t.kind == kind && in_days(t.sold_at as int, from, to) {
        assert forall|i: int|
            #![trigger new[i]]
            #![trigger lines[i]]
            0 <= i < new.len() implies p(new[i]) == r(lines[i]) && f(new[i]) == g(lines[i]) by {
            assert(new[i] == after.lines[book.lines.len() + i]);
        }
        lemma_same_picks(new, lines, p, r, f, g, new.len());
    } else {
        assert forall|i: int| 0 <= i < new.len() implies !p(#[trigger] new[i]) by {
            assert(new[i] == after.lines[book.lines.len() + i]);
        }
        lemma_none_picked(new, p, f, new.len());
    }
    let a = picked(book.lines, q, f);
    let b = picked(after.lines, p, f);
    lemma_sum_exact(a, a.len());
    lemma_sum_exact(b, b.len());
}

/// The hours follow the orders: an order that is captured in the window counts in the hour
/// of its moment, where the clock is that many minutes east of Greenwich, with its
/// total; every other hour stays as it was.
pub proof fn hours_follow_the_orders(
    orders: Seq<OrderFacts>,
    o: OrderFacts,
    kind: OrderKind,
    hour: int,
    from: Option<Day>,
    to: Option<Day>,
    offset: int,
)
    ensures
        ({
            let p = in_hour(kind, hour, from, to, offset);
            let there = o.status == OrderStatus::Captured && o.kind == kind && in_days(
                o.sold_at as int,
                from,
                to,
            ) && hour == ((o.sold_at + offset * 60_000_000) % 86_400_000_000) / 3_600_000_000;
            &&& there ==> counted(orders.push(o), p) == counted(orders, p) + 1
            &&& there ==> worth_of(picked(orders.push(o), p, its_total())) == worth_of(
                picked(orders, p, its_total()),
            ) + worth(o.total)
            &&& !there ==> counted(orders.push(o), p) == counted(orders, p)
            &&& !there ==> picked(orders.push(o), p, its_total()) == picked(orders, p, its_total())
        }),
{
    let p = in_hour(kind, hour, from, to, offset);
    windows_hold_whole_days(o.sold_at as int, from, to);
    lemma_counted_push(orders, o, p, orders.len());
    lemma_picked_push(orders, o, p, its_total());
    let s = picked(orders, p, its_total());
    lemma_worth_agrees(s.push(o.total), s, s.len());
}

/// An hour shows what was sold in it, what was refunded, and the first less the second; an
/// hour in which nothing happened is not shown.
pub proof fn hours_net_their_refunds(
    book: Book,
    hour: nat,
    from: Option<Day>,
    to: Option<Day>,
    offset: int,
)
    ensures
        ({
            let sale = in_hour(OrderKind::Sale, hour as int, from, to, offset);
            let refund = in_hour(OrderKind::Refund, hour as int, from, to, offset);
            &&& counted(book.orders, sale) + counted(book.orders, refund) == 0 <==> hour_row(
                book,
                hour,
                from,
                to,
                offset,
            ) == Some(None::<HourFacts>)
            &&& hour_row(book, hour, from, to, offset) matches Some(Some(h)) ==> {
                &&& h.hour == hour
                &&& h.sales == counted(book.orders, sale)
                &&& h.refunds == counted(book.orders, refund)
                &&& total(picked(book.orders, sale, its_total())) == Some(h.gross_sales)
                &&& total(picked(book.orders, refund, its_total())) == Some(h.refund_total)
                &&& difference_of(Some(h.gross_sales), Some(h.refund_total)) == Some(h.net_total)
            }
        }),
{
}

proof fn lemma_item_net_prefix(
    a: Book,
    b: Book,
    item: u128,
    from: Option<Day>,
    to: Option<Day>,
    f: spec_fn(LineFacts) -> Num,
    n: nat,
)
    requires
        a.orders == b.orders,
        n <= a.lines.len(),
        n <= b.lines.len(),
        forall|i: int| 0 <= i < n ==> a.lines[i] == b.lines[i],
    ensures
        item_net_to(a, item, from, to, f, n) == item_net_to(b, item, from, to, f, n),
    decreases n,
{
    if n > 0 {
        lemma_item_net_prefix(a, b, item, from, to, f, (n - 1) as nat);
    }
}

/// What an item took follows the lines: one more line of it adds its money and its tax where
/// its order sold it in the window, and takes them off where its order refunded it; a
/// line of another item, or of an order that the window does not hold, changes neither.
/// Its net is what it took less the tax.
pub proof fn item_takings_follow_the_lines(
    book: Book,
    l: LineFacts,
    items: Seq<Item>,
    item: u128,
    from: Option<Day>,
    to: Option<Day>,
)
    ensures
        ({
            let after = Book { lines: book.lines.push(l), ..book };
            let kind = kind_within(book.orders, l.order_id, from, to);
            let own = l.item_id == item;
            &&& own && kind == Some(OrderKind::Sale) ==> item_gross(after, item, from, to)
                == sum_of(item_gross(book, item, from, to), Some(l.net)) && item_tax(
                after,
                item,
                from,
                to,
            ) == sum_of(item_tax(book, item, from, to), Some(l.tax_amount))
            &&& own && kind == Some(OrderKind::Refund) ==> item_gross(after, item, from, to)
                == difference_of(item_gross(book, item, from, to), Some(l.net)) && item_tax(
                after,
                item,
                from,
                to,
            ) == difference_of(item_tax(book, item, from, to), Some(l.tax_amount))
            &&& !own || kind is None ==> item_gross(after, item, from, to) == item_gross(
                book,
                item,
                from,
                to,
            ) && item_tax(after, item, from, to) == item_tax(book, item, from, to)
            &&& item_row(book, items, item, from, to) matches Some(r) ==> {
                &&& item_gross(book, item, from, to) == Some(r.gross)
                &&& item_tax(book, item, from, to) == Some(r.tax)
                &&& minus(r.gross, r.tax) == Some(r.net)
            }
        }),
{
    let after = Book { lines: book.lines.push(l), ..book };
    let n = book.lines.len();
    lemma_item_net_prefix(after, book, item, from, to, its_net(), n);
    lemma_item_net_prefix(after, book, item, from, to, its_tax(), n);
    assert(after.lines[n as int] == l);
}

} // verus!
