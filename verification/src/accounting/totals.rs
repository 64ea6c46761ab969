//! From the journal to the ledger: what was posted to each account over a span of
//! days.

use super::journal::{effect, effect_to, EntryStatus, Posting, Written};
use super::account::Model as Account;
use super::ledger::{credit_of, debit_of, found, net_worth, position, sums_up, totals_of, Totals};
use crate::date::{earlier, opt_day, Date, Day};
use crate::decimal::{worth, zero, Decimal, Num};
use crate::error::{Error, Refusal};
use crate::search::{any, first_from, lemma_first_from};
use crate::sums::{
    adds_exactly, lemma_picked_push, lemma_sum_exact, lemma_total_push, lemma_worth_agrees, picked,
    picked_to, sum_of, total, worth_of,
};
use vstd::prelude::*;

verus! {

/// Whether an entry counts: it is posted, or was before it was reversed, and
/// lies in the span.
pub open spec fn counts(e: Written, from: Option<Day>, to: Option<Day>) -> bool {
    &&& e.entry.status != EntryStatus::Draft
    &&& from matches Some(f) ==> !earlier(e.entry.entry_date@, f)
    &&& to matches Some(t) ==> !earlier(t, e.entry.entry_date@)
}

/// The lines of those of the first `n` entries that count.
pub open spec fn counted_lines_to(
    entries: Seq<Written>,
    from: Option<Day>,
    to: Option<Day>,
    n: nat,
) -> Seq<Posting>
    decreases n,
{
    if n == 0 {
        Seq::empty()
    } else {
        let rest = counted_lines_to(entries, from, to, (n - 1) as nat);
        if counts(entries[n - 1], from, to) {
            rest + entries[n - 1].postings@
        } else {
            rest
        }
    }
}

/// The lines of the entries that count.
pub open spec fn counted_lines(entries: Seq<Written>, from: Option<Day>, to: Option<Day>) -> Seq<
    Posting,
> {
    counted_lines_to(entries, from, to, entries.len())
}

pub open spec fn on_account(id: u128) -> spec_fn(Posting) -> bool {
    |p: Posting| p.account_id == id
}

pub open spec fn its_debit() -> spec_fn(Posting) -> Num {
    |p: Posting| p.debit@
}

pub open spec fn its_credit() -> spec_fn(Posting) -> Num {
    |p: Posting| p.credit@
}

/// What lines debit an account with, one by one.
pub open spec fn debits(lines: Seq<Posting>, id: u128) -> Seq<Num> {
    picked(lines, on_account(id), its_debit())
}

/// What lines credit an account with, one by one.
pub open spec fn credits(lines: Seq<Posting>, id: u128) -> Seq<Num> {
    picked(lines, on_account(id), its_credit())
}

/// Whether totals add up lines: each account that a line is posted to has its
/// totals, and no other one.
pub open spec fn are_totals(totals: Seq<Totals>, lines: Seq<Posting>) -> bool {
    forall|id: u128| #[trigger] adds_up(totals, lines, id)
}

pub open spec fn adds_up(totals: Seq<Totals>, lines: Seq<Posting>, id: u128) -> bool {
    &&& total(debits(lines, id)) == Some(debit_of(totals, id))
    &&& total(credits(lines, id)) == Some(credit_of(totals, id))
    &&& found(totals, id) is Some <==> any(lines, on_account(id))
}

/// Whether a total leaves the range.
pub open spec fn totals_overflow(lines: Seq<Posting>) -> bool {
    exists|id: u128, n: int|
        0 <= n <= lines.len() && #[trigger] overflows_at(lines.take(n), id)
}

pub open spec fn overflows_at(lines: Seq<Posting>, id: u128) -> bool {
    total(debits(lines, id)) is None || total(credits(lines, id)) is None
}

/// A change of an account's totals is found, and nothing else of the list
/// changes.
proof fn lemma_found_after_update(totals: Seq<Totals>, i: int, next: Totals, id: u128)
    requires
        0 <= i < totals.len(),
        next.account_id == totals[i].account_id,
        first_from(totals, totals_of(next.account_id), 0) == Some(i),
    ensures
        found(totals.update(i, next), id) == if id == next.account_id {
            Some(next)
        } else {
            found(totals, id)
        },
{
    lemma_same_places(totals, i, next, id, 0);
    lemma_first_from(totals, totals_of(id), 0);
}

proof fn lemma_same_places(totals: Seq<Totals>, i: int, next: Totals, id: u128, from: int)
    requires
        0 <= i < totals.len(),
        0 <= from,
        next.account_id == totals[i].account_id,
    ensures
        first_from(totals.update(i, next), totals_of(id), from) == first_from(
            totals,
            totals_of(id),
            from,
        ),
    decreases totals.len() - from,
{
    if from < totals.len() {
        lemma_same_places(totals, i, next, id, from + 1);
    }
}

proof fn lemma_found_after_push(totals: Seq<Totals>, new: Totals, id: u128)
    requires
        found(totals, new.account_id) is None,
    ensures
        found(totals.push(new), id) == if id == new.account_id {
            Some(new)
        } else {
            found(totals, id)
        },
{
    let after = totals.push(new);
    let p = totals_of(id);
    lemma_first_from(totals, p, 0);
    lemma_first_from(after, p, 0);
    assert(after[totals.len() as int] == new);
    assert forall|j: int| 0 <= j < totals.len() implies after[j] == totals[j] by {}
    match first_from(totals, p, 0) {
        Some(i) => {
            assert(p(after[i]));
            let j = first_from(after, p, 0)->0;
            if j < i {
                assert(p(totals[j]));
            } else if i < j {
                assert(!p(after[i]));
            }
        },
        None => {
            if id == new.account_id {
                assert(p(after[totals.len() as int]));
                let j = first_from(after, p, 0)->0;
                if j < totals.len() {
                    assert(p(totals[j]));
                }
            } else if first_from(after, p, 0) is Some {
                let j = first_from(after, p, 0)->0;
                assert(p(after[j]));
                if j < totals.len() {
                    assert(p(totals[j]));
                }
            }
        },
    }
}

proof fn lemma_any_push(lines: Seq<Posting>, p: Posting, id: u128)
    ensures
        any(lines.push(p), on_account(id)) == (any(lines, on_account(id)) || p.account_id == id),
{
    let after = lines.push(p);
    let q = on_account(id);
    if any(lines, q) {
        let i = choose|i: int| 0 <= i < lines.len() && q(#[trigger] lines[i]);
        assert(q(after[i]));
    }
    if p.account_id == id {
        assert(q(after[lines.len() as int]));
    }
    if any(after, q) {
        let i = choose|i: int| 0 <= i < after.len() && q(#[trigger] after[i]);
        if i < lines.len() {
            assert(q(lines[i]));
        }
    }
}

/// What one more line adds to an account.
proof fn lemma_one_more(lines: Seq<Posting>, p: Posting, id: u128)
    ensures
        total(debits(lines.push(p), id)) == if p.account_id == id {
            sum_of(total(debits(lines, id)), Some(p.debit@))
        } else {
            total(debits(lines, id))
        },
        total(credits(lines.push(p), id)) == if p.account_id == id {
            sum_of(total(credits(lines, id)), Some(p.credit@))
        } else {
            total(credits(lines, id))
        },
{
    lemma_picked_push(lines, p, on_account(id), its_debit());
    lemma_picked_push(lines, p, on_account(id), its_credit());
    lemma_total_push(debits(lines, id), p.debit@);
    lemma_total_push(credits(lines, id), p.credit@);
}

/// Add a line to the totals of its account.
fn add_line(totals: &mut Vec<Totals>, p: &Posting, Ghost(lines): Ghost<Seq<Posting>>) -> (done: bool)
    requires
        are_totals(old(totals)@, lines),
    ensures
        done ==> are_totals(final(totals)@, lines.push(*p)),
        !done ==> overflows_at(lines.push(*p), p.account_id),
{
    let ghost before = totals@;
    let id = p.account_id;
    proof {
        lemma_one_more(lines, *p, id);
        assert(adds_up(before, lines, id));
    }
    match position(totals, id) {
        Some(i) => {
            let debit = match totals[i].debit.checked_add(p.debit) {
                Some(d) => d,
                None => {
                    return false;
                },
            };
            let credit = match totals[i].credit.checked_add(p.credit) {
                Some(c) => c,
                None => {
                    return false;
                },
            };
            let next = Totals { account_id: id, debit, credit };
            proof {
                lemma_first_from(before, totals_of(id), 0);
            }
            totals[i] = next;
            proof {
                assert(totals@ =~= before.update(i as int, next));
                assert forall|other: u128| #[trigger]
                    adds_up(totals@, lines.push(*p), other) by {
                    assert(adds_up(before, lines, other));
                    lemma_one_more(lines, *p, other);
                    lemma_any_push(lines, *p, other);
                    lemma_found_after_update(before, i as int, next, other);
                }
            }
        },
        None => {
            let debit = match Decimal::zero().checked_add(p.debit) {
                Some(d) => d,
                None => {
                    return false;
                },
            };
            let credit = match Decimal::zero().checked_add(p.credit) {
                Some(c) => c,
                None => {
                    return false;
                },
            };
            let new = Totals { account_id: id, debit, credit };
            totals.push(new);
            proof {
                assert forall|other: u128| #[trigger]
                    adds_up(totals@, lines.push(*p), other) by {
                    assert(adds_up(before, lines, other));
                    lemma_one_more(lines, *p, other);
                    lemma_any_push(lines, *p, other);
                    lemma_found_after_push(before, new, other);
                }
            }
        },
    }
    true
}

pub(crate) fn counts_in(e: &Written, from: &Option<Date>, to: &Option<Date>) -> (r: bool)
    ensures
        r == counts(*e, opt_day(*from), opt_day(*to)),
{
    let after = match from {
        Some(f) => !e.entry.entry_date.is_before(f),
        None => true,
    };
    let until = match to {
        Some(t) => !t.is_before(&e.entry.entry_date),
        None => true,
    };
    e.entry.status != EntryStatus::Draft && after && until
}

proof fn lemma_lines_grow(entries: Seq<Written>, from: Option<Day>, to: Option<Day>, i: nat, n: nat)
    requires
        i <= n,
    ensures
        counted_lines_to(entries, from, to, i).len() <= counted_lines_to(
            entries,
            from,
            to,
            n,
        ).len(),
        counted_lines_to(entries, from, to, n).take(
            counted_lines_to(entries, from, to, i).len() as int,
        ) == counted_lines_to(entries, from, to, i),
    decreases n,
{
    let small = counted_lines_to(entries, from, to, i);
    let all = counted_lines_to(entries, from, to, n);
    if i < n {
        lemma_lines_grow(entries, from, to, i, (n - 1) as nat);
        let rest = counted_lines_to(entries, from, to, (n - 1) as nat);
        assert(all.take(small.len() as int) =~= rest.take(small.len() as int));
    } else {
        assert(all.take(small.len() as int) =~= small);
    }
}

/// The totals of each account over a span of days, both days included: of what
/// is posted, or was before it was reversed.
pub fn totals_range(entries: &Vec<Written>, from: Option<Date>, to: Option<Date>) -> (r: Result<
    Vec<Totals>,
    Error,
>)
    ensures
        ({
            let lines = counted_lines(entries@, opt_day(from), opt_day(to));
            match r {
                Ok(totals) => are_totals(totals@, lines),
                Err(e) => e@ == Refusal::Overflow && totals_overflow(lines),
            }
        }),
{
    let ghost f = opt_day(from);
    let ghost t = opt_day(to);
    let ghost all = counted_lines(entries@, f, t);
    let mut totals: Vec<Totals> = Vec::new();
    let mut i: usize = 0;
    assert forall|id: u128| #[trigger] adds_up(totals@, Seq::<Posting>::empty(), id) by {
        assert(first_from(totals@, totals_of(id), 0) is None);
    }
    while i < entries.len()
        invariant
            i <= entries.len(),
            f == opt_day(from),
            t == opt_day(to),
            all == counted_lines(entries@, f, t),
            are_totals(totals@, counted_lines_to(entries@, f, t, i as nat)),
        decreases entries.len() - i,
    {
        let e = &entries[i];
        if counts_in(e, &from, &to) {
            let ghost rest = counted_lines_to(entries@, f, t, i as nat);
            let ghost next = counted_lines_to(entries@, f, t, (i + 1) as nat);
            assert(next == rest + e.postings@);
            let mut k: usize = 0;
            assert(rest + e.postings@.take(0) =~= rest);
            while k < e.postings.len()
                invariant
                    i < entries.len(),
                    k <= e.postings.len(),
                    f == opt_day(from),
                    t == opt_day(to),
                    all == counted_lines(entries@, f, t),
                    *e == entries@[i as int],
                    rest == counted_lines_to(entries@, f, t, i as nat),
                    next == counted_lines_to(entries@, f, t, (i + 1) as nat),
                    next == rest + e.postings@,
                    are_totals(totals@, rest + e.postings@.take(k as int)),
                decreases e.postings.len() - k,
            {
                let ghost so_far = rest + e.postings@.take(k as int);
                let ghost more = rest + e.postings@.take(k + 1);
                assert(more =~= so_far.push(e.postings@[k as int]));
                let done = add_line(&mut totals, &e.postings[k], Ghost(so_far));
                if !done {
                    proof {
                        lemma_lines_grow(entries@, f, t, (i + 1) as nat, entries@.len());
                        let n = more.len() as int;
                        assert(all.take(n) =~= next.take(n)) by {
                            assert(all.take(next.len() as int) == next);
                        }
                        assert(next.take(n) =~= more);
                        assert(overflows_at(all.take(n), e.postings@[k as int].account_id));
                    }
                    return Err(Error::Overflow);
                }
                k = k + 1;
            }
            assert(rest + e.postings@.take(k as int) =~= next);
        }
        i = i + 1;
    }
    Ok(totals)
}

// ---------------------------------------------------------------------------
// Laws
// ---------------------------------------------------------------------------

/// What lines add to an account is the worth of what they debit it with, less
/// the worth of what they credit it with.
pub(crate) proof fn lemma_effect(lines: Seq<Posting>, id: u128, n: nat)
    requires
        n <= lines.len(),
    ensures
        effect_to(lines, id, n) == worth_of(
            picked_to(lines, on_account(id), its_debit(), n),
        ) - worth_of(picked_to(lines, on_account(id), its_credit(), n)),
    decreases n,
{
    if n > 0 {
        lemma_effect(lines, id, (n - 1) as nat);
        if lines[n - 1].account_id == id {
            lemma_worth_push(
                picked_to(lines, on_account(id), its_debit(), (n - 1) as nat),
                lines[n - 1].debit@,
            );
            lemma_worth_push(
                picked_to(lines, on_account(id), its_credit(), (n - 1) as nat),
                lines[n - 1].credit@,
            );
        }
    }
}

proof fn lemma_worth_push(s: Seq<Num>, x: Num)
    ensures
        worth_of(s.push(x)) == worth_of(s) + worth(x),
{
    lemma_worth_agrees(s.push(x), s, s.len());
}

/// The totals of an account hold what the lines add to it.
pub(crate) proof fn lemma_totals_hold(totals: Seq<Totals>, lines: Seq<Posting>, id: u128)
    requires
        are_totals(totals, lines),
        adds_exactly(debits(lines, id)),
        adds_exactly(credits(lines, id)),
    ensures
        worth(debit_of(totals, id)) == worth_of(debits(lines, id)),
        worth(credit_of(totals, id)) == worth_of(credits(lines, id)),
        net_worth(totals, id) == effect(lines, id),
{
    assert(adds_up(totals, lines, id));
    lemma_effect(lines, id, lines.len());
    lemma_sum_exact(debits(lines, id), debits(lines, id).len());
    lemma_sum_exact(credits(lines, id), credits(lines, id).len());
}

/// The totals of a span hold what its entries add to each account, wherever
/// they are added up without rounding: nothing is lost between the journal and
/// the ledger.
pub proof fn totals_hold_the_journal(
    accounts: Seq<Account>,
    totals: Seq<Totals>,
    lines: Seq<Posting>,
)
    requires
        are_totals(totals, lines),
        forall|id: u128| adds_exactly(#[trigger] debits(lines, id)),
        forall|id: u128| adds_exactly(#[trigger] credits(lines, id)),
    ensures
        sums_up(accounts, totals, lines),
{
    assert forall|i: int| 0 <= i < accounts.len() implies net_worth(
        totals,
        (#[trigger] accounts[i]).id,
    ) == effect(lines, accounts[i].id) by {
        let id = accounts[i].id;
        assert(adds_exactly(debits(lines, id)));
        assert(adds_exactly(credits(lines, id)));
        lemma_totals_hold(totals, lines, id);
    }
}

} // verus!
