//! How the money of a session follows what happens in it: orders, voids, and the
//! drawer.

use super::refund::{order_id, void_refusal, voided};
use super::sale::{
    written, Book, OrderFacts, OrderKind, OrderStatus, Paid, PaymentFacts, Priced, Stub,
};
use super::register::Model as Register;
use super::session::{CashMovement, DrawerKind, Session, SessionCount};
use super::takings::{
    at_drawer, cash_is_accounted_for, is_money, is_report, is_voided, its_amount, its_tax,
    its_total, kind_in, modest, moved, paid_by, stands, stands_with, tender_facts, SessionMoney,
    SessionReport, TenderReportLine,
};
use crate::decimal::{limit, minus, rounded, worth, Num};
use crate::search::{first_from, lemma_first_from};
use crate::sums::{
    adds_exactly, kept_places, lemma_combined_exact, lemma_counted_push, lemma_counted_update,
    lemma_none_picked, lemma_picked_appends, lemma_picked_push, lemma_picked_splits,
    lemma_same_picks, lemma_sum_exact, lemma_worth_agrees, picked, picked_to, total, worth_of,
};
use vstd::prelude::*;

verus! {

/// The payments that a tender made on the sales, or the refunds, of a session.
pub open spec fn payments_by(book: Book, session: u128, kind: OrderKind, tender: Seq<char>) -> Seq<
    Num,
> {
    picked(book.payments, paid_by(book.orders, session, kind, tender), its_amount())
}

/// The totals of the sales, or the refunds, of a session.
pub open spec fn totals_in(book: Book, session: u128, kind: OrderKind) -> Seq<Num> {
    picked(book.orders, stands(session, kind), its_total())
}

/// The taxes of the sales, or the refunds, of a session.
pub open spec fn taxes_in(book: Book, session: u128, kind: OrderKind) -> Seq<Num> {
    picked(book.orders, stands(session, kind), its_tax())
}

/// Whether the money of a session is added up without rounding.
pub open spec fn reckoned_exactly(book: Book, session: u128) -> bool {
    &&& forall|kind: OrderKind, tender: Seq<char>|
        adds_exactly(#[trigger] payments_by(book, session, kind, tender))
    &&& forall|kind: OrderKind| adds_exactly(#[trigger] totals_in(book, session, kind))
    &&& forall|kind: OrderKind| adds_exactly(#[trigger] taxes_in(book, session, kind))
}

/// What tenders of one kind are applied for, each to the cent.
pub open spec fn applied(tenders: Seq<Paid>, tender: Seq<char>) -> Seq<Num> {
    picked(tenders, |t: Paid| t.tender == tender, |t: Paid| rounded(t.amount, 2))
}

/// Whether no order has that id yet, and no payment is for it.
pub open spec fn is_new(book: Book, id: u128) -> bool {
    &&& forall|i: int| 0 <= i < book.orders.len() ==> (#[trigger] book.orders[i]).id != id
    &&& forall|i: int| 0 <= i < book.payments.len() ==> (#[trigger] book.payments[i]).order_id != id
}

/// What the money of a session says, in worth.
proof fn lemma_reckoned(m: SessionMoney, book: Book, drawer: Seq<CashMovement>, session: u128)
    requires
        is_money(m, book, drawer, session),
        reckoned_exactly(book, session),
    ensures
        worth(m.sales.cash@) == worth_of(payments_by(book, session, OrderKind::Sale, "cash"@)),
        worth(m.sales.mpesa@) == worth_of(payments_by(book, session, OrderKind::Sale, "mpesa"@)),
        worth(m.sales.card@) == worth_of(payments_by(book, session, OrderKind::Sale, "card"@)),
        worth(m.refunds.cash@) == worth_of(payments_by(book, session, OrderKind::Refund, "cash"@)),
        worth(m.refunds.mpesa@) == worth_of(
            payments_by(book, session, OrderKind::Refund, "mpesa"@),
        ),
        worth(m.refunds.card@) == worth_of(payments_by(book, session, OrderKind::Refund, "card"@)),
        worth(m.gross_sales@) == worth_of(totals_in(book, session, OrderKind::Sale)),
        worth(m.refund_total@) == worth_of(totals_in(book, session, OrderKind::Refund)),
        worth(m.sales_tax@) == worth_of(taxes_in(book, session, OrderKind::Sale)),
        worth(m.refund_tax@) == worth_of(taxes_in(book, session, OrderKind::Refund)),
{
    lemma_exact(payments_by(book, session, OrderKind::Sale, "cash"@));
    lemma_exact(payments_by(book, session, OrderKind::Sale, "mpesa"@));
    lemma_exact(payments_by(book, session, OrderKind::Sale, "card"@));
    lemma_exact(payments_by(book, session, OrderKind::Refund, "cash"@));
    lemma_exact(payments_by(book, session, OrderKind::Refund, "mpesa"@));
    lemma_exact(payments_by(book, session, OrderKind::Refund, "card"@));
    lemma_exact(totals_in(book, session, OrderKind::Sale));
    lemma_exact(totals_in(book, session, OrderKind::Refund));
    lemma_exact(taxes_in(book, session, OrderKind::Sale));
    lemma_exact(taxes_in(book, session, OrderKind::Refund));
}

proof fn lemma_exact(s: Seq<Num>)
    requires
        adds_exactly(s),
    ensures
        total(s) matches Some(t) && worth(t) == worth_of(s),
{
    lemma_sum_exact(s, s.len());
}

/// What kind of order stands under an id, once one more order is written.
pub(crate) proof fn lemma_kind_pushed(orders: Seq<OrderFacts>, o: OrderFacts, session: u128, id: u128)
    requires
        forall|i: int| 0 <= i < orders.len() ==> (#[trigger] orders[i]).id != o.id,
    ensures
        kind_in(orders.push(o), session, id) == if id == o.id {
            if o.session_id == session && o.status == OrderStatus::Captured {
                Some(o.kind)
            } else {
                None
            }
        } else {
            kind_in(orders, session, id)
        },
{
    let after = orders.push(o);
    let p = stands_with(session, id);
    lemma_first_from(orders, p, 0);
    lemma_first_from(after, p, 0);
    assert(after[orders.len() as int] == o);
    assert forall|i: int| 0 <= i < orders.len() implies after[i] == orders[i] by {}
    match first_from(after, p, 0) {
        Some(j) => {
            assert(p(after[j]));
            if j < orders.len() {
                assert(p(orders[j]));
                let k = first_from(orders, p, 0)->0;
                assert(p(after[k]));
            } else {
                if let Some(k) = first_from(orders, p, 0) {
                    assert(p(after[k]));
                }
            }
        },
        None => {
            assert(!p(after[orders.len() as int]));
            if let Some(k) = first_from(orders, p, 0) {
                assert(p(after[k]));
            }
        },
    }
}

/// The payments of a session, once one more order is written.
proof fn lemma_payments_written(
    book: Book,
    t: Stub,
    lines: Seq<Priced>,
    tenders: Seq<Paid>,
    id: u128,
    number: Seq<char>,
    line_ids: Seq<u128>,
    session: u128,
    kind: OrderKind,
    tender: Seq<char>,
)
    requires
        is_new(book, id),
    ensures
        worth_of(
            payments_by(
                written(book, t, lines, tenders, id, number, line_ids),
                session,
                kind,
                tender,
            ),
        ) == worth_of(payments_by(book, session, kind, tender)) + if t.session_id == session
            && t.kind == kind {
            worth_of(applied(tenders, tender))
        } else {
            0
        },
{
    let after = written(book, t, lines, tenders, id, number, line_ids);
    let o = after.orders.last();
    let f = its_amount();
    let p = paid_by(after.orders, session, kind, tender);
    let q = paid_by(book.orders, session, kind, tender);
    assert(after.orders == book.orders.push(o));
    let new = after.payments.skip(book.payments.len() as int);
    assert(after.payments =~= book.payments + new);
    lemma_picked_appends(book.payments, new, p, f, new.len());
    assert forall|i: int| 0 <= i < book.payments.len() implies p(#[trigger] book.payments[i]) == q(
        book.payments[i],
    ) by {
        lemma_kind_pushed(book.orders, o, session, book.payments[i].order_id);
    }
    lemma_same_picks(book.payments, book.payments, p, q, f, f, book.payments.len());
    lemma_kind_pushed(book.orders, o, session, id);
    let r = |x: Paid| x.tender == tender;
    let g = |x: Paid| rounded(x.amount, 2);
    assert(new.len() == tenders.len());
    if t.session_id == session && t.kind == kind {
        assert forall|i: int|
            #![trigger new[i]]
            #![trigger tenders[i]]
            0 <= i < new.len() implies p(new[i]) == r(tenders[i]) && f(new[i]) == g(tenders[i]) by {
            assert(new[i] == after.payments[book.payments.len() + i]);
        }
        lemma_same_picks(new, tenders, p, r, f, g, new.len());
    } else {
        assert forall|i: int| 0 <= i < new.len() implies !p(#[trigger] new[i]) by {
            assert(new[i] == after.payments[book.payments.len() + i]);
        }
        lemma_none_picked(new, p, f, new.len());
    }
}

/// The totals of a session, once one more order is written.
proof fn lemma_totals_written(
    book: Book,
    o: OrderFacts,
    session: u128,
    kind: OrderKind,
    f: spec_fn(OrderFacts) -> Num,
)
    ensures
        worth_of(picked(book.orders.push(o), stands(session, kind), f)) == worth_of(
            picked(book.orders, stands(session, kind), f),
        ) + if o.session_id == session && o.kind == kind && o.status == OrderStatus::Captured {
            worth(f(o))
        } else {
            0
        },
{
    let s = picked(book.orders, stands(session, kind), f);
    lemma_picked_push(book.orders, o, stands(session, kind), f);
    lemma_worth_agrees(s.push(f(o)), s, s.len());
}

/// A sale adds to the money of its session: each tender takes what was applied by it,
/// to the cent, the sales grow by the order's total and the tax by its tax, and there
/// is one sale more. What was refunded, and the drawer's other movements, stay. The
/// order gets an id that none has yet.
pub proof fn sales_add_to_their_session(
    book: Book,
    drawer: Seq<CashMovement>,
    t: Stub,
    lines: Seq<Priced>,
    tenders: Seq<Paid>,
    id: u128,
    number: Seq<char>,
    line_ids: Seq<u128>,
    before: SessionMoney,
    after: SessionMoney,
)
    requires
        is_new(book, id),
        t.kind == OrderKind::Sale,
        is_money(before, book, drawer, t.session_id),
        is_money(
            after,
            written(book, t, lines, tenders, id, number, line_ids),
            drawer,
            t.session_id,
        ),
        reckoned_exactly(book, t.session_id),
        reckoned_exactly(
            written(book, t, lines, tenders, id, number, line_ids),
            t.session_id,
        ),
    ensures
        worth(after.sales.cash@) == worth(before.sales.cash@) + worth_of(applied(tenders, "cash"@)),
        worth(after.sales.mpesa@) == worth(before.sales.mpesa@) + worth_of(
            applied(tenders, "mpesa"@),
        ),
        worth(after.sales.card@) == worth(before.sales.card@) + worth_of(applied(tenders, "card"@)),
        worth(after.gross_sales@) == worth(before.gross_sales@) + worth(rounded(t.sums.total, 2)),
        worth(after.sales_tax@) == worth(before.sales_tax@) + worth(rounded(t.sums.tax, 2)),
        after.sales_count == before.sales_count + 1,
        worth(after.refunds.cash@) == worth(before.refunds.cash@),
        worth(after.refunds.mpesa@) == worth(before.refunds.mpesa@),
        worth(after.refunds.card@) == worth(before.refunds.card@),
        worth(after.refund_total@) == worth(before.refund_total@),
        worth(after.refund_tax@) == worth(before.refund_tax@),
        after.refunds_count == before.refunds_count,
        after.voids_count == before.voids_count,
        after.paid_in@ == before.paid_in@,
        after.paid_out@ == before.paid_out@,
{
    lemma_written(book, drawer, t, lines, tenders, id, number, line_ids, before, after);
}

/// A refund adds to what its session gave back: each tender gives what was applied by
/// it, to the cent, the refunds grow by the order's total and their tax by its tax,
/// and there is one refund more. What was sold stays.
pub proof fn refunds_add_to_their_session(
    book: Book,
    drawer: Seq<CashMovement>,
    t: Stub,
    lines: Seq<Priced>,
    tenders: Seq<Paid>,
    id: u128,
    number: Seq<char>,
    line_ids: Seq<u128>,
    before: SessionMoney,
    after: SessionMoney,
)
    requires
        is_new(book, id),
        t.kind == OrderKind::Refund,
        is_money(before, book, drawer, t.session_id),
        is_money(
            after,
            written(book, t, lines, tenders, id, number, line_ids),
            drawer,
            t.session_id,
        ),
        reckoned_exactly(book, t.session_id),
        reckoned_exactly(
            written(book, t, lines, tenders, id, number, line_ids),
            t.session_id,
        ),
    ensures
        worth(after.refunds.cash@) == worth(before.refunds.cash@) + worth_of(
            applied(tenders, "cash"@),
        ),
        worth(after.refunds.mpesa@) == worth(before.refunds.mpesa@) + worth_of(
            applied(tenders, "mpesa"@),
        ),
        worth(after.refunds.card@) == worth(before.refunds.card@) + worth_of(
            applied(tenders, "card"@),
        ),
        worth(after.refund_total@) == worth(before.refund_total@) + worth(rounded(t.sums.total, 2)),
        worth(after.refund_tax@) == worth(before.refund_tax@) + worth(rounded(t.sums.tax, 2)),
        after.refunds_count == before.refunds_count + 1,
        worth(after.sales.cash@) == worth(before.sales.cash@),
        worth(after.sales.mpesa@) == worth(before.sales.mpesa@),
        worth(after.sales.card@) == worth(before.sales.card@),
        worth(after.gross_sales@) == worth(before.gross_sales@),
        worth(after.sales_tax@) == worth(before.sales_tax@),
        after.sales_count == before.sales_count,
        after.voids_count == before.voids_count,
        after.paid_in@ == before.paid_in@,
        after.paid_out@ == before.paid_out@,
{
    lemma_written(book, drawer, t, lines, tenders, id, number, line_ids, before, after);
}

/// What an order that is written adds to the money of its session.
proof fn lemma_written(
    book: Book,
    drawer: Seq<CashMovement>,
    t: Stub,
    lines: Seq<Priced>,
    tenders: Seq<Paid>,
    id: u128,
    number: Seq<char>,
    line_ids: Seq<u128>,
    before: SessionMoney,
    after: SessionMoney,
)
    requires
        is_new(book, id),
        is_money(before, book, drawer, t.session_id),
        is_money(
            after,
            written(book, t, lines, tenders, id, number, line_ids),
            drawer,
            t.session_id,
        ),
        reckoned_exactly(book, t.session_id),
        reckoned_exactly(
            written(book, t, lines, tenders, id, number, line_ids),
            t.session_id,
        ),
    ensures
        ({
            let sale: int = if t.kind == OrderKind::Sale {
                1
            } else {
                0
            };
            let cash = worth_of(applied(tenders, "cash"@));
            let mpesa = worth_of(applied(tenders, "mpesa"@));
            let card = worth_of(applied(tenders, "card"@));
            let sum = worth(rounded(t.sums.total, 2));
            let tax = worth(rounded(t.sums.tax, 2));
            &&& worth(after.sales.cash@) == worth(before.sales.cash@) + (if t.kind
                == OrderKind::Sale {
                cash
            } else {
                0
            })
            &&& worth(after.sales.mpesa@) == worth(before.sales.mpesa@) + (if t.kind
                == OrderKind::Sale {
                mpesa
            } else {
                0
            })
            &&& worth(after.sales.card@) == worth(before.sales.card@) + (if t.kind
                == OrderKind::Sale {
                card
            } else {
                0
            })
            &&& worth(after.refunds.cash@) == worth(before.refunds.cash@) + (if t.kind
                == OrderKind::Sale {
                0
            } else {
                cash
            })
            &&& worth(after.refunds.mpesa@) == worth(before.refunds.mpesa@) + (if t.kind
                == OrderKind::Sale {
                0
            } else {
                mpesa
            })
            &&& worth(after.refunds.card@) == worth(before.refunds.card@) + (if t.kind
                == OrderKind::Sale {
                0
            } else {
                card
            })
            &&& worth(after.gross_sales@) == worth(before.gross_sales@) + (if t.kind
                == OrderKind::Sale {
                sum
            } else {
                0
            })
            &&& worth(after.refund_total@) == worth(before.refund_total@) + (if t.kind
                == OrderKind::Sale {
                0
            } else {
                sum
            })
            &&& worth(after.sales_tax@) == worth(before.sales_tax@) + (if t.kind
                == OrderKind::Sale {
                tax
            } else {
                0
            })
            &&& worth(after.refund_tax@) == worth(before.refund_tax@) + (if t.kind
                == OrderKind::Sale {
                0
            } else {
                tax
            })
            &&& after.sales_count == before.sales_count + sale
            &&& after.refunds_count == before.refunds_count + 1 - sale
            &&& after.voids_count == before.voids_count
            &&& after.paid_in@ == before.paid_in@
            &&& after.paid_out@ == before.paid_out@
        }),
{
    let next = written(book, t, lines, tenders, id, number, line_ids);
    let session = t.session_id;
    let o = next.orders.last();
    let n = book.orders.len();
    let sale = OrderKind::Sale;
    let refund = OrderKind::Refund;
    assert(next.orders == book.orders.push(o));
    lemma_reckoned(before, book, drawer, session);
    lemma_reckoned(after, next, drawer, session);
    lemma_payments_written(book, t, lines, tenders, id, number, line_ids, session, sale, "cash"@);
    lemma_payments_written(book, t, lines, tenders, id, number, line_ids, session, sale, "mpesa"@);
    lemma_payments_written(book, t, lines, tenders, id, number, line_ids, session, sale, "card"@);
    lemma_payments_written(book, t, lines, tenders, id, number, line_ids, session, refund, "cash"@);
    lemma_payments_written(
        book,
        t,
        lines,
        tenders,
        id,
        number,
        line_ids,
        session,
        refund,
        "mpesa"@,
    );
    lemma_payments_written(book, t, lines, tenders, id, number, line_ids, session, refund, "card"@);
    lemma_totals_written(book, o, session, sale, its_total());
    lemma_totals_written(book, o, session, refund, its_total());
    lemma_totals_written(book, o, session, sale, its_tax());
    lemma_totals_written(book, o, session, refund, its_tax());
    lemma_counted_push(book.orders, o, stands(session, sale), n);
    lemma_counted_push(book.orders, o, stands(session, refund), n);
    lemma_counted_push(book.orders, o, is_voided(session), n);
}

/// What a tender was applied for on one order.
pub open spec fn paid_on(book: Book, id: u128, tender: Seq<char>) -> Seq<Num> {
    picked(
        book.payments,
        |p: PaymentFacts| p.order_id == id && p.tender == tender,
        its_amount(),
    )
}

/// What one element alone is picked for.
proof fn lemma_one_picked<T>(
    s: Seq<T>,
    k: int,
    p: spec_fn(T) -> bool,
    f: spec_fn(T) -> Num,
    n: nat,
)
    requires
        0 <= k < s.len(),
        n <= s.len(),
        forall|i: int| 0 <= i < s.len() ==> p(#[trigger] s[i]) == (i == k),
    ensures
        worth_of(picked_to(s, p, f, n)) == if k < n {
            worth(f(s[k]))
        } else {
            0
        },
    decreases n,
{
    if n > 0 {
        lemma_one_picked(s, k, p, f, (n - 1) as nat);
        assert(p(s[n - 1]) == (n - 1 == k));
        let x = picked_to(s, p, f, (n - 1) as nat);
        lemma_worth_agrees(x.push(f(s[n - 1])), x, x.len());
    }
}

/// Where an order stands in a book once it is voided.
pub(crate) proof fn lemma_voided_place(
    book: Book,
    sessions: Seq<Session>,
    k: int,
    reason: Seq<char>,
    by: Option<u128>,
    now: i64,
)
    requires
        0 <= k < book.orders.len(),
        forall|j: int|
            0 <= j < book.orders.len() && j != k ==> (#[trigger] book.orders[j]).id
                != book.orders[k].id,
        void_refusal(book, sessions, book.orders[k].id, reason) is None,
    ensures
        ({
            let after = voided(book, book.orders[k].id, reason, by, now);
            &&& book.orders[k].status == OrderStatus::Captured
            &&& after.payments == book.payments
            &&& after.orders == book.orders.update(k, after.orders[k])
            &&& after.orders[k].status == OrderStatus::Voided
            &&& after.orders[k].session_id == book.orders[k].session_id
            &&& after.orders[k].id == book.orders[k].id
        }),
{
    let id = book.orders[k].id;
    lemma_first_from(book.orders, order_id(id), 0);
    assert(order_id(id)(book.orders[k]));
    assert(first_from(book.orders, order_id(id), 0) == Some(k));
    let after = voided(book, id, reason, by, now);
    assert(after.orders =~= book.orders.update(k, after.orders[k]));
}

/// What kind of order stands under an id, once one order is voided.
pub(crate) proof fn lemma_kind_voided(
    orders: Seq<OrderFacts>,
    k: int,
    marked: OrderFacts,
    session: u128,
    id: u128,
)
    requires
        0 <= k < orders.len(),
        forall|j: int| 0 <= j < orders.len() && j != k ==> (#[trigger] orders[j]).id != orders[k].id,
        orders[k].status == OrderStatus::Captured,
        marked.status == OrderStatus::Voided,
        marked.id == orders[k].id,
    ensures
        kind_in(orders.update(k, marked), session, id) == if id == orders[k].id {
            None
        } else {
            kind_in(orders, session, id)
        },
        kind_in(orders, session, orders[k].id) == if orders[k].session_id == session {
            Some(orders[k].kind)
        } else {
            None
        },
{
    let after = orders.update(k, marked);
    let p = stands_with(session, id);
    let own = stands_with(session, orders[k].id);
    lemma_first_from(orders, p, 0);
    lemma_first_from(after, p, 0);
    lemma_first_from(orders, own, 0);
    assert forall|j: int| 0 <= j < orders.len() && j != k implies after[j] == orders[j] by {}
    if orders[k].session_id == session {
        assert(own(orders[k]));
    }
    match first_from(after, p, 0) {
        Some(j) => {
            assert(p(after[j]));
            assert(j != k);
            assert(p(orders[j]));
            let i = first_from(orders, p, 0)->0;
            if i != k {
                assert(p(after[i]));
            }
        },
        None => {
            if let Some(i) = first_from(orders, p, 0) {
                if i != k {
                    assert(p(after[i]));
                }
            }
        },
    }
}

proof fn lemma_payments_voided(
    book: Book,
    k: int,
    marked: OrderFacts,
    session: u128,
    kind: OrderKind,
    tender: Seq<char>,
)
    requires
        0 <= k < book.orders.len(),
        forall|j: int|
            0 <= j < book.orders.len() && j != k ==> (#[trigger] book.orders[j]).id
                != book.orders[k].id,
        book.orders[k].status == OrderStatus::Captured,
        marked.status == OrderStatus::Voided,
        marked.id == book.orders[k].id,
    ensures
        ({
            let after = Book { orders: book.orders.update(k, marked), ..book };
            let o = book.orders[k];
            worth_of(payments_by(book, session, kind, tender)) == worth_of(
                payments_by(after, session, kind, tender),
            ) + if o.session_id == session && o.kind == kind {
                worth_of(paid_on(book, o.id, tender))
            } else {
                0
            }
        }),
{
    let after = Book { orders: book.orders.update(k, marked), ..book };
    let o = book.orders[k];
    let all = book.payments;
    let f = its_amount();
    let p = paid_by(book.orders, session, kind, tender);
    let q = paid_by(after.orders, session, kind, tender);
    let r = |x: PaymentFacts| p(x) && x.order_id == o.id;
    let own = |x: PaymentFacts| x.order_id == o.id && x.tender == tender;
    assert forall|i: int| 0 <= i < all.len() implies p(#[trigger] all[i]) == (q(all[i]) || r(all[i]))
        && !(q(all[i]) && r(all[i])) by {
        lemma_kind_voided(book.orders, k, marked, session, all[i].order_id);
    }
    lemma_picked_splits(all, p, q, r, f, all.len());
    lemma_kind_voided(book.orders, k, marked, session, o.id);
    if o.session_id == session && o.kind == kind {
        lemma_same_picks(all, all, r, own, f, f, all.len());
    } else {
        lemma_none_picked(all, r, f, all.len());
    }
}

proof fn lemma_totals_voided(
    orders: Seq<OrderFacts>,
    k: int,
    marked: OrderFacts,
    session: u128,
    kind: OrderKind,
    f: spec_fn(OrderFacts) -> Num,
)
    requires
        0 <= k < orders.len(),
        orders[k].status == OrderStatus::Captured,
        marked.status == OrderStatus::Voided,
        forall|j: int| 0 <= j < orders.len() && j != k ==> (#[trigger] orders[j]).id != orders[k].id,
    ensures
        worth_of(picked(orders, stands(session, kind), f)) == worth_of(
            picked(orders.update(k, marked), stands(session, kind), f),
        ) + if orders[k].session_id == session && orders[k].kind == kind {
            worth(f(orders[k]))
        } else {
            0
        },
{
    let o = orders[k];
    let after = orders.update(k, marked);
    let p = stands(session, kind);
    let q = |x: OrderFacts| p(x) && x.id != o.id;
    let r = |x: OrderFacts| p(x) && x.id == o.id;
    lemma_picked_splits(orders, p, q, r, f, orders.len());
    lemma_same_picks(after, orders, p, q, f, f, orders.len());
    if o.session_id == session && o.kind == kind {
        lemma_one_picked(orders, k, r, f, orders.len());
    } else {
        lemma_none_picked(orders, r, f, orders.len());
    }
}

/// Voiding an order takes it out of its session: what its tenders were applied for,
/// its total and its tax no longer count, and it counts as a void in place of a sale
/// or refund. Orders are known by their ids.
pub proof fn voids_take_orders_out_of_their_session(
    book: Book,
    drawer: Seq<CashMovement>,
    sessions: Seq<Session>,
    k: int,
    reason: Seq<char>,
    by: Option<u128>,
    now: i64,
    before: SessionMoney,
    after: SessionMoney,
)
    requires
        0 <= k < book.orders.len(),
        forall|j: int|
            0 <= j < book.orders.len() && j != k ==> (#[trigger] book.orders[j]).id
                != book.orders[k].id,
        void_refusal(book, sessions, book.orders[k].id, reason) is None,
        is_money(before, book, drawer, book.orders[k].session_id),
        is_money(
            after,
            voided(book, book.orders[k].id, reason, by, now),
            drawer,
            book.orders[k].session_id,
        ),
        reckoned_exactly(book, book.orders[k].session_id),
        reckoned_exactly(
            voided(book, book.orders[k].id, reason, by, now),
            book.orders[k].session_id,
        ),
    ensures
        ({
            let o = book.orders[k];
            let cash = worth_of(paid_on(book, o.id, "cash"@));
            let mpesa = worth_of(paid_on(book, o.id, "mpesa"@));
            let card = worth_of(paid_on(book, o.id, "card"@));
            &&& after.voids_count == before.voids_count + 1
            &&& after.paid_in@ == before.paid_in@
            &&& after.paid_out@ == before.paid_out@
            &&& o.kind == OrderKind::Sale ==> {
                &&& worth(after.sales.cash@) == worth(before.sales.cash@) - cash
                &&& worth(after.sales.mpesa@) == worth(before.sales.mpesa@) - mpesa
                &&& worth(after.sales.card@) == worth(before.sales.card@) - card
                &&& worth(after.gross_sales@) == worth(before.gross_sales@) - worth(o.total)
                &&& worth(after.sales_tax@) == worth(before.sales_tax@) - worth(o.tax_total)
                &&& after.sales_count == before.sales_count - 1
                &&& after.refunds_count == before.refunds_count
                &&& worth(after.refunds.cash@) == worth(before.refunds.cash@)
                &&& worth(after.refund_total@) == worth(before.refund_total@)
            }
            &&& o.kind == OrderKind::Refund ==> {
                &&& worth(after.refunds.cash@) == worth(before.refunds.cash@) - cash
                &&& worth(after.refunds.mpesa@) == worth(before.refunds.mpesa@) - mpesa
                &&& worth(after.refunds.card@) == worth(before.refunds.card@) - card
                &&& worth(after.refund_total@) == worth(before.refund_total@) - worth(o.total)
                &&& worth(after.refund_tax@) == worth(before.refund_tax@) - worth(o.tax_total)
                &&& after.refunds_count == before.refunds_count - 1
                &&& after.sales_count == before.sales_count
                &&& worth(after.sales.cash@) == worth(before.sales.cash@)
                &&& worth(after.gross_sales@) == worth(before.gross_sales@)
            }
        }),
{
    let o = book.orders[k];
    let session = o.session_id;
    let next = voided(book, o.id, reason, by, now);
    let n = book.orders.len();
    let sale = OrderKind::Sale;
    let refund = OrderKind::Refund;
    lemma_voided_place(book, sessions, k, reason, by, now);
    let marked = next.orders[k];
    let plain = Book { orders: book.orders.update(k, marked), ..book };
    assert(next.orders == plain.orders && next.payments == plain.payments);
    lemma_reckoned(before, book, drawer, session);
    lemma_reckoned(after, next, drawer, session);
    lemma_payments_voided(book, k, marked, session, sale, "cash"@);
    lemma_payments_voided(book, k, marked, session, sale, "mpesa"@);
    lemma_payments_voided(book, k, marked, session, sale, "card"@);
    lemma_payments_voided(book, k, marked, session, refund, "cash"@);
    lemma_payments_voided(book, k, marked, session, refund, "mpesa"@);
    lemma_payments_voided(book, k, marked, session, refund, "card"@);
    lemma_totals_voided(book.orders, k, marked, session, sale, its_total());
    lemma_totals_voided(book.orders, k, marked, session, refund, its_total());
    lemma_totals_voided(book.orders, k, marked, session, sale, its_tax());
    lemma_totals_voided(book.orders, k, marked, session, refund, its_tax());
    lemma_counted_update(book.orders, k, marked, stands(session, sale), n);
    lemma_counted_update(book.orders, k, marked, stands(session, refund), n);
    lemma_counted_update(book.orders, k, marked, is_voided(session), n);
}

/// What is paid into the drawer of a session, or out of it, changes that sum by its
/// amount and nothing else of the session's money.
pub proof fn the_drawer_counts_what_moves_through_it(
    book: Book,
    drawer: Seq<CashMovement>,
    c: CashMovement,
    before: SessionMoney,
    after: SessionMoney,
)
    requires
        is_money(before, book, drawer, c.session_id),
        is_money(after, book, drawer.push(c), c.session_id),
        forall|kind: DrawerKind|
            adds_exactly(#[trigger] picked(drawer, at_drawer(c.session_id, kind), moved())),
        forall|kind: DrawerKind|
            adds_exactly(#[trigger] picked(drawer.push(c), at_drawer(c.session_id, kind), moved())),
    ensures
        c.kind == DrawerKind::PaidIn ==> worth(after.paid_in@) == worth(before.paid_in@) + worth(
            c.amount@,
        ) && worth(after.paid_out@) == worth(before.paid_out@),
        c.kind == DrawerKind::PaidOut ==> worth(after.paid_out@) == worth(before.paid_out@) + worth(
            c.amount@,
        ) && worth(after.paid_in@) == worth(before.paid_in@),
        after.sales.cash@ == before.sales.cash@,
        after.refunds.cash@ == before.refunds.cash@,
        after.gross_sales@ == before.gross_sales@,
        after.refund_total@ == before.refund_total@,
{
    let into = at_drawer(c.session_id, DrawerKind::PaidIn);
    let out = at_drawer(c.session_id, DrawerKind::PaidOut);
    lemma_exact(picked(drawer, into, moved()));
    lemma_exact(picked(drawer, out, moved()));
    lemma_exact(picked(drawer.push(c), into, moved()));
    lemma_exact(picked(drawer.push(c), out, moved()));
    lemma_picked_push(drawer, c, into, moved());
    lemma_picked_push(drawer, c, out, moved());
    let x = picked(drawer, into, moved());
    let y = picked(drawer, out, moved());
    lemma_worth_agrees(x.push(c.amount@), x, x.len());
    lemma_worth_agrees(y.push(c.amount@), y, y.len());
}

/// What a report says of a tender adds up: the net is what was sold less what was
/// refunded; once the tender was counted, what it should hold and what it held are
/// those of the count, and the variance is the second less the first; until then
/// nothing is said of a count. Cash is always there.
pub proof fn reports_show_the_variance(
    tender: Seq<char>,
    sales: Num,
    refunds: Num,
    expected: Num,
    stored: Option<SessionCount>,
)
    requires
        minus(sales, refunds) is Some,
        stored matches Some(c) ==> minus(c.counted@, c.expected@) is Some,
    ensures
        tender_facts(tender, sales, refunds, expected, stored) is Some,
        ({
            let said = tender_facts(tender, sales, refunds, expected, stored)->0;
            &&& tender == "cash"@ || sales.0 != 0 || refunds.0 != 0 || expected.0 != 0 || stored
                is Some ==> said is Some
            &&& said matches Some(f) ==> {
                &&& f.tender == tender
                &&& f.sales == sales
                &&& f.refunds == refunds
                &&& minus(sales, refunds) == Some(f.net)
                &&& stored matches Some(c) ==> f.expected == Some(c.expected@) && f.counted == Some(
                    c.counted@,
                ) && f.variance == minus(c.counted@, c.expected@)
                &&& stored is None ==> f.expected == Some(expected) && f.counted is None
                    && f.variance is None
            }
        }),
{
}

/// The report of a session adds up: its net is what was sold less what was refunded, tax
/// included, its tax that of the sales less that of the refunds, and the cash that it
/// expects is the float, what cash took less what it gave, and what was paid in less what
/// was paid out.
pub proof fn reports_add_up(
    r: SessionReport,
    s: Session,
    register: Option<Register>,
    m: SessionMoney,
    counts: Seq<SessionCount>,
    stored: bool,
)
    requires
        is_report(r, s, register, m, counts, stored),
        modest(s.opening_float@) && modest(m.sales.cash@) && modest(m.refunds.cash@),
        modest(m.paid_in@) && modest(m.paid_out@),
        modest(m.gross_sales@) && modest(m.sales_tax@),
        modest(m.refund_total@) && modest(m.refund_tax@),
    ensures
        worth(r.net_total@) == worth(r.gross_sales@) - worth(r.refund_total@),
        worth(r.tax_total@) == worth(m.sales_tax@) - worth(m.refund_tax@),
        r.expected_cash matches Some(e) && worth(e@) == worth(s.opening_float@) + worth(
            m.sales.cash@,
        ) - worth(m.refunds.cash@) + worth(m.paid_in@) - worth(m.paid_out@),
        r.gross_sales == m.gross_sales,
        r.refund_total == m.refund_total,
        r.tenders@.len() > 0 && r.tenders@[0].tender@ == "cash"@,
{
    let p = kept_places();
    let unit = limit() / 1000;
    lemma_combined_exact(m.gross_sales@, m.sales_tax@, -1, p, unit, unit);
    lemma_combined_exact(m.refund_total@, m.refund_tax@, -1, p, unit, unit);
    lemma_combined_exact(m.sales_tax@, m.refund_tax@, -1, p, unit, unit);
    let sold = minus(m.gross_sales@, m.sales_tax@)->0;
    let back = minus(m.refund_total@, m.refund_tax@)->0;
    lemma_combined_exact(sold, back, -1, p, 2 * unit, 2 * unit);
    let net = minus(sold, back)->0;
    let tax = minus(m.sales_tax@, m.refund_tax@)->0;
    lemma_combined_exact(net, tax, 1, p, 4 * unit, 2 * unit);
    cash_is_accounted_for(m, s.opening_float@);
    let shown = r.tenders@.map_values(|t: TenderReportLine| t@);
    assert(shown.len() > 0 && shown[0].tender == "cash"@);
    assert(shown[0] == r.tenders@[0]@);
}

} // verus!
