//! What later events leave as it was: a session's figures move only by what
//! happens in that session.

use super::refund::{order_id, void_refusal, voided};
use super::register::Model as Register;
use super::sale::{written, Book, OrderFacts, OrderKind, Paid, Priced, Stub};
use super::session::{session_id, CashMovement, Session, SessionCount, SessionStatus};
use super::takings::{
    has_drifted, is_money, is_report, is_voided, its_amount, its_tax, its_total, kind_in,
    money_in_range, order_sum, paid_by, report_overflows, reported, stands, stands_with, tax_sum,
    tender_sum, was_offline, SessionMoney, SessionReport,
};
use crate::decimal::Num;
use crate::error::Error;
use crate::search::{first_from, first_where, lemma_first_from};
use crate::sums::{counted, counted_to, picked_to};
use vstd::prelude::*;

verus! {

/// Whether two lists of orders are alike to a session: the orders of the one
/// stand in the other, changed at most where they are another session's, and
/// what comes after them is another session's.
pub open spec fn alike(before: Seq<OrderFacts>, after: Seq<OrderFacts>, session: u128) -> bool {
    &&& before.len() <= after.len()
    &&& forall|i: int|
        0 <= i < before.len() ==> #[trigger] before[i] == after[i] || (before[i].session_id
            != session && after[i].session_id != session)
    &&& forall|i: int|
        before.len() <= i < after.len() ==> (#[trigger] after[i]).session_id != session
}

/// Whether a condition holds of orders of the session only.
spec fn own(p: spec_fn(OrderFacts) -> bool, session: u128) -> bool {
    forall|o: OrderFacts| #[trigger] p(o) ==> o.session_id == session
}

proof fn lemma_counted(
    before: Seq<OrderFacts>,
    after: Seq<OrderFacts>,
    session: u128,
    p: spec_fn(OrderFacts) -> bool,
    n: nat,
)
    requires
        alike(before, after, session),
        own(p, session),
        n <= after.len(),
    ensures
        counted_to(after, p, n) == counted_to(
            before,
            p,
            if n <= before.len() {
                n
            } else {
                before.len()
            },
        ),
    decreases n,
{
    if n > 0 {
        lemma_counted(before, after, session, p, (n - 1) as nat);
        if n <= before.len() {
            assert(before[n - 1] == after[n - 1] || before[n - 1].session_id != session);
        }
    }
}

proof fn lemma_picked(
    before: Seq<OrderFacts>,
    after: Seq<OrderFacts>,
    session: u128,
    p: spec_fn(OrderFacts) -> bool,
    f: spec_fn(OrderFacts) -> Num,
    n: nat,
)
    requires
        alike(before, after, session),
        own(p, session),
        n <= after.len(),
    ensures
        picked_to(after, p, f, n) == picked_to(
            before,
            p,
            f,
            if n <= before.len() {
                n
            } else {
                before.len()
            },
        ),
    decreases n,
{
    if n > 0 {
        lemma_picked(before, after, session, p, f, (n - 1) as nat);
        if n <= before.len() {
            assert(before[n - 1] == after[n - 1] || before[n - 1].session_id != session);
        }
    }
}

proof fn lemma_kind(before: Seq<OrderFacts>, after: Seq<OrderFacts>, session: u128, id: u128)
    requires
        alike(before, after, session),
    ensures
        kind_in(after, session, id) == kind_in(before, session, id),
{
    let p = stands_with(session, id);
    lemma_first_from(before, p, 0);
    lemma_first_from(after, p, 0);
    match first_from(before, p, 0) {
        Some(i) => {
            assert(before[i] == after[i] || before[i].session_id != session);
            assert(p(after[i]));
            let k = first_from(after, p, 0)->0;
            if k < i {
                assert(before[k] == after[k] || after[k].session_id != session);
                assert(p(before[k]));
            }
        },
        None => {
            if let Some(k) = first_from(after, p, 0) {
                if k < before.len() {
                    assert(before[k] == after[k] || after[k].session_id != session);
                    assert(p(before[k]));
                }
            }
        },
    }
}

proof fn lemma_paid(
    before: Book,
    after: Book,
    session: u128,
    kind: OrderKind,
    tender: Seq<char>,
    n: nat,
)
    requires
        alike(before.orders, after.orders, session),
        before.payments.len() <= after.payments.len(),
        forall|i: int|
            0 <= i < before.payments.len() ==> #[trigger] after.payments[i] == before.payments[i],
        forall|i: int|
            before.payments.len() <= i < after.payments.len() ==> kind_in(
                before.orders,
                session,
                (#[trigger] after.payments[i]).order_id,
            ) is None,
        n <= after.payments.len(),
    ensures
        picked_to(
            after.payments,
            paid_by(after.orders, session, kind, tender),
            its_amount(),
            n,
        ) == picked_to(
            before.payments,
            paid_by(before.orders, session, kind, tender),
            its_amount(),
            if n <= before.payments.len() {
                n
            } else {
                before.payments.len()
            },
        ),
    decreases n,
{
    if n > 0 {
        lemma_paid(before, after, session, kind, tender, (n - 1) as nat);
        lemma_kind(before.orders, after.orders, session, after.payments[n - 1].order_id);
        if n <= before.payments.len() {
            assert(after.payments[n - 1] == before.payments[n - 1]);
        }
    }
}

/// Whether a book has grown into another one without touching a session: its
/// orders are alike to it, and no new payment is on one of them.
pub open spec fn leaves_alone(before: Book, after: Book, session: u128) -> bool {
    &&& alike(before.orders, after.orders, session)
    &&& before.payments.len() <= after.payments.len()
    &&& forall|i: int|
        0 <= i < before.payments.len() ==> #[trigger] after.payments[i] == before.payments[i]
    &&& forall|i: int|
        before.payments.len() <= i < after.payments.len() ==> kind_in(
            before.orders,
            session,
            (#[trigger] after.payments[i]).order_id,
        ) is None
}

proof fn lemma_tender(
    before: Book,
    after: Book,
    session: u128,
    kind: OrderKind,
    tender: Seq<char>,
)
    requires
        leaves_alone(before, after, session),
    ensures
        tender_sum(after, session, kind, tender) == tender_sum(before, session, kind, tender),
{
    lemma_paid(before, after, session, kind, tender, after.payments.len());
}

proof fn lemma_orders(before: Book, after: Book, session: u128, kind: OrderKind)
    requires
        leaves_alone(before, after, session),
    ensures
        order_sum(after, session, kind) == order_sum(before, session, kind),
        tax_sum(after, session, kind) == tax_sum(before, session, kind),
        counted(after.orders, stands(session, kind)) == counted(
            before.orders,
            stands(session, kind),
        ),
{
    let n = after.orders.len();
    let p = stands(session, kind);
    lemma_picked(before.orders, after.orders, session, p, its_total(), n);
    lemma_picked(before.orders, after.orders, session, p, its_tax(), n);
    lemma_counted(before.orders, after.orders, session, p, n);
}

proof fn lemma_money(before: Book, after: Book, drawer: Seq<CashMovement>, session: u128)
    requires
        leaves_alone(before, after, session),
    ensures
        money_in_range(after, drawer, session) == money_in_range(before, drawer, session),
        forall|m: SessionMoney| #[trigger]
            is_money(m, after, drawer, session) == is_money(m, before, drawer, session),
{
    lemma_tender(before, after, session, OrderKind::Sale, "cash"@);
    lemma_tender(before, after, session, OrderKind::Sale, "mpesa"@);
    lemma_tender(before, after, session, OrderKind::Sale, "card"@);
    lemma_tender(before, after, session, OrderKind::Refund, "cash"@);
    lemma_tender(before, after, session, OrderKind::Refund, "mpesa"@);
    lemma_tender(before, after, session, OrderKind::Refund, "card"@);
    lemma_orders(before, after, session, OrderKind::Sale);
    lemma_orders(before, after, session, OrderKind::Refund);
    let n = after.orders.len();
    lemma_counted(before.orders, after.orders, session, is_voided(session), n);
    lemma_counted(before.orders, after.orders, session, has_drifted(session), n);
    lemma_counted(before.orders, after.orders, session, was_offline(session), n);
}

proof fn lemma_reported(
    r: Result<SessionReport, Error>,
    s: Session,
    register: Option<&Register>,
    before: Book,
    after: Book,
    drawer: Seq<CashMovement>,
    counts: Seq<SessionCount>,
)
    requires
        leaves_alone(before, after, s.id),
        reported(r, s, register, before, drawer, counts, true),
    ensures
        reported(r, s, register, after, drawer, counts, true),
{
    lemma_money(before, after, drawer, s.id);
    match r {
        Ok(report) => {
            let shown = match register {
                Some(g) => Some(*g),
                None => None,
            };
            let m = choose|m: SessionMoney|
                #[trigger] is_money(m, before, drawer, s.id) && is_report(
                    report,
                    s,
                    shown,
                    m,
                    counts,
                    true,
                );
            assert(is_money(m, after, drawer, s.id));
        },
        Err(_) => {
            if money_in_range(before, drawer, s.id) {
                let m = choose|m: SessionMoney|
                    #[trigger] is_money(m, before, drawer, s.id) && report_overflows(
                        s,
                        m,
                        counts,
                        true,
                    );
                assert(is_money(m, after, drawer, s.id));
            }
        },
    }
}

// ---------------------------------------------------------------------------
// Laws
// ---------------------------------------------------------------------------

proof fn lemma_written_leaves(
    book: Book,
    t: Stub,
    lines: Seq<Priced>,
    tenders: Seq<Paid>,
    id: u128,
    number: Seq<char>,
    line_ids: Seq<u128>,
    session: u128,
)
    requires
        t.session_id != session,
        kind_in(book.orders, session, id) is None,
    ensures
        leaves_alone(book, written(book, t, lines, tenders, id, number, line_ids), session),
{
    let after = written(book, t, lines, tenders, id, number, line_ids);
    assert(alike(book.orders, after.orders, session));
    assert forall|i: int| book.payments.len() <= i < after.payments.len() implies kind_in(
        book.orders,
        session,
        (#[trigger] after.payments[i]).order_id,
    ) is None by {
        assert(after.payments[i].order_id == id);
    }
}

/// The Z report stays true: an order that is captured in another session, under
/// an id of its own, changes nothing of what a session's report says.
pub proof fn later_orders_leave_the_z_report(
    r: Result<SessionReport, Error>,
    s: Session,
    register: Option<&Register>,
    book: Book,
    drawer: Seq<CashMovement>,
    counts: Seq<SessionCount>,
    t: Stub,
    lines: Seq<Priced>,
    tenders: Seq<Paid>,
    id: u128,
    number: Seq<char>,
    line_ids: Seq<u128>,
)
    requires
        t.session_id != s.id,
        kind_in(book.orders, s.id, id) is None,
        reported(r, s, register, book, drawer, counts, true),
    ensures
        reported(
            r,
            s,
            register,
            written(book, t, lines, tenders, id, number, line_ids),
            drawer,
            counts,
            true,
        ),
{
    lemma_written_leaves(book, t, lines, tenders, id, number, line_ids, s.id);
    lemma_reported(
        r,
        s,
        register,
        book,
        written(book, t, lines, tenders, id, number, line_ids),
        drawer,
        counts,
    );
}

/// The Z report stays true: a void, which only an open session allows, changes
/// nothing of what the report of a session that is no longer open says.
pub proof fn later_voids_leave_the_z_report(
    r: Result<SessionReport, Error>,
    s: Session,
    register: Option<&Register>,
    book: Book,
    sessions: Seq<Session>,
    drawer: Seq<CashMovement>,
    counts: Seq<SessionCount>,
    id: u128,
    reason: Seq<char>,
    by: Option<u128>,
    now: i64,
)
    requires
        first_where(sessions, session_id(s.id)) == Some(s),
        s.status != SessionStatus::Open,
        void_refusal(book, sessions, id, reason) is None,
        reported(r, s, register, book, drawer, counts, true),
    ensures
        reported(r, s, register, voided(book, id, reason, by, now), drawer, counts, true),
{
    let after = voided(book, id, reason, by, now);
    lemma_first_from(book.orders, order_id(id), 0);
    let i = first_from(book.orders, order_id(id), 0)->0;
    assert(book.orders[i].session_id != s.id);
    assert(alike(book.orders, after.orders, s.id));
    lemma_reported(r, s, register, book, after, drawer, counts);
}

} // verus!
