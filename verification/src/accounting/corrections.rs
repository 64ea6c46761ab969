//! What posting, correcting and drafting do to the books: a posted entry stays in
//! them, its reversal offsets it, and a draft is never part of them.

use super::history::{lemma_posted_worth, lines_before, opening_day, pair_worth, posted_to};
use super::journal::{
    effect, is_posted_draft, is_reversal, once_reversed, Entry, EntryStatus, Naming, Posting,
    Written,
};
use super::ledger::{credit_of, debit_of, net_worth, Totals};
use super::totals::{
    are_totals, counted_lines, counted_lines_to, counts, credits, debits, its_credit, its_debit,
    lemma_effect, lemma_totals_hold, on_account,
};
use crate::date::{
    day_before, day_number, is_date, lemma_day_before, lemma_day_number_orders, Date, Day,
};
use crate::decimal::{worth, Num};
use crate::sums::{adds_exactly, lemma_picked_appends, picked, picked_to, tally, worth_of};
use vstd::prelude::*;

verus! {

/// Whether a day lies in a span of days, both ends included; a missing end is open.
pub open spec fn in_span(day: Day, from: Option<Day>, to: Option<Day>) -> bool {
    &&& from matches Some(f) ==> day_number(f) <= day_number(day)
    &&& to matches Some(t) ==> day_number(day) <= day_number(t)
}

/// Whether the ends of a span are days of the calendar.
pub open spec fn is_span(from: Option<Day>, to: Option<Day>) -> bool {
    &&& from matches Some(f) ==> is_date(f)
    &&& to matches Some(t) ==> is_date(t)
}

/// What lines debit or credit an account with together.
spec fn amount(lines: Seq<Posting>, id: u128, side: spec_fn(Posting) -> Num) -> int {
    worth_of(picked(lines, on_account(id), side))
}

proof fn lemma_counts(w: Written, from: Option<Day>, to: Option<Day>)
    requires
        is_date(w.entry.entry_date@),
        is_span(from, to),
    ensures
        counts(w, from, to) == (w.entry.status != EntryStatus::Draft && in_span(
            w.entry.entry_date@,
            from,
            to,
        )),
{
    let d = w.entry.entry_date@;
    if let Some(f) = from {
        lemma_day_number_orders(d, f);
        lemma_day_number_orders(f, d);
    }
    if let Some(t) = to {
        lemma_day_number_orders(d, t);
        lemma_day_number_orders(t, d);
    }
}

/// The lines of a journal are not changed by what comes after them.
proof fn lemma_counted_prefix(
    a: Seq<Written>,
    b: Seq<Written>,
    from: Option<Day>,
    to: Option<Day>,
    n: nat,
)
    requires
        n <= a.len(),
        n <= b.len(),
        forall|i: int| 0 <= i < n ==> a[i] == b[i],
    ensures
        counted_lines_to(a, from, to, n) == counted_lines_to(b, from, to, n),
    decreases n,
{
    if n > 0 {
        lemma_counted_prefix(a, b, from, to, (n - 1) as nat);
    }
}

/// One more entry, wherever it stands in the journal, adds its lines where it
/// counts.
proof fn lemma_inserted(
    entries: Seq<Written>,
    i: int,
    w: Written,
    from: Option<Day>,
    to: Option<Day>,
    id: u128,
    side: spec_fn(Posting) -> Num,
    n: nat,
)
    requires
        0 <= i <= n <= entries.len(),
    ensures
        amount(counted_lines_to(entries.insert(i, w), from, to, n + 1), id, side) == amount(
            counted_lines_to(entries, from, to, n),
            id,
            side,
        ) + if counts(w, from, to) {
            amount(w.postings@, id, side)
        } else {
            0
        },
    decreases n,
{
    let more = entries.insert(i, w);
    if n == i {
        assert(more[i] == w);
        assert forall|k: int| 0 <= k < i implies more[k] == entries[k] by {}
        lemma_counted_prefix(more, entries, from, to, n);
        lemma_picked_appends(
            counted_lines_to(entries, from, to, n),
            w.postings@,
            on_account(id),
            side,
            w.postings@.len(),
        );
    } else {
        lemma_inserted(entries, i, w, from, to, id, side, (n - 1) as nat);
        assert(more[n as int] == entries[n - 1]);
        let last = entries[n - 1].postings@;
        lemma_picked_appends(
            counted_lines_to(more, from, to, n),
            last,
            on_account(id),
            side,
            last.len(),
        );
        lemma_picked_appends(
            counted_lines_to(entries, from, to, (n - 1) as nat),
            last,
            on_account(id),
            side,
            last.len(),
        );
    }
}

/// What an entry adds to the books of an account, wherever it stands.
proof fn lemma_one_entry(
    entries: Seq<Written>,
    i: int,
    w: Written,
    from: Option<Day>,
    to: Option<Day>,
    id: u128,
)
    requires
        0 <= i <= entries.len(),
        is_span(from, to),
        is_date(w.entry.entry_date@),
    ensures
        ({
            let before = counted_lines(entries, from, to);
            let after = counted_lines(entries.insert(i, w), from, to);
            let there = w.entry.status != EntryStatus::Draft && in_span(
                w.entry.entry_date@,
                from,
                to,
            );
            &&& worth_of(debits(after, id)) == worth_of(debits(before, id)) + if there {
                worth_of(debits(w.postings@, id))
            } else {
                0
            }
            &&& worth_of(credits(after, id)) == worth_of(credits(before, id)) + if there {
                worth_of(credits(w.postings@, id))
            } else {
                0
            }
            &&& effect(after, id) == effect(before, id) + if there {
                effect(w.postings@, id)
            } else {
                0
            }
        }),
{
    let before = counted_lines(entries, from, to);
    let after = counted_lines(entries.insert(i, w), from, to);
    lemma_counts(w, from, to);
    lemma_inserted(entries, i, w, from, to, id, its_debit(), entries.len());
    lemma_inserted(entries, i, w, from, to, id, its_credit(), entries.len());
    lemma_effect(before, id, before.len());
    lemma_effect(after, id, after.len());
    lemma_effect(w.postings@, id, w.postings@.len());
}

/// The books hold every entry that was posted, on its day, and none that is a
/// draft: an entry adds its lines to the totals and to the ledger of each account
/// over every span that holds its day, whether it was reversed since or not, and
/// to no other; a draft adds nothing to any.
pub proof fn what_is_posted_counts(
    entries: Seq<Written>,
    i: int,
    w: Written,
    from: Option<Day>,
    to: Option<Day>,
    id: u128,
)
    requires
        0 <= i <= entries.len(),
        is_span(from, to),
        is_date(w.entry.entry_date@),
    ensures
        ({
            let more = entries.insert(i, w);
            let before = counted_lines(entries, from, to);
            let after = counted_lines(more, from, to);
            let there = w.entry.status != EntryStatus::Draft && in_span(
                w.entry.entry_date@,
                from,
                to,
            );
            let shown = |all: Seq<Written>|
                tally(posted_to(all, id, from, to, all.len()), pair_worth());
            &&& there ==> worth_of(debits(after, id)) == worth_of(debits(before, id)) + worth_of(
                debits(w.postings@, id),
            )
            &&& there ==> worth_of(credits(after, id)) == worth_of(credits(before, id))
                + worth_of(credits(w.postings@, id))
            &&& there ==> shown(more) == shown(entries) + effect(w.postings@, id)
            &&& !there ==> worth_of(debits(after, id)) == worth_of(debits(before, id))
            &&& !there ==> worth_of(credits(after, id)) == worth_of(credits(before, id))
            &&& !there ==> shown(more) == shown(entries)
        }),
{
    let more = entries.insert(i, w);
    lemma_one_entry(entries, i, w, from, to, id);
    lemma_posted_worth(entries, id, from, to, entries.len());
    lemma_posted_worth(more, id, from, to, more.len());
}

proof fn lemma_marked(
    entries: Seq<Written>,
    i: int,
    marked: Written,
    from: Option<Day>,
    to: Option<Day>,
    id: u128,
    n: nat,
)
    requires
        0 <= i < entries.len(),
        n <= entries.len(),
        entries[i].entry.status == EntryStatus::Posted,
        marked.entry.status == EntryStatus::Reversed,
        marked.entry.entry_date == entries[i].entry.entry_date,
        marked.postings == entries[i].postings,
    ensures
        counted_lines_to(entries.update(i, marked), from, to, n) == counted_lines_to(
            entries,
            from,
            to,
            n,
        ),
    decreases n,
{
    if n > 0 {
        lemma_marked(entries, i, marked, from, to, id, (n - 1) as nat);
    }
}

/// Marking an entry as reversed changes nothing of what it contributes: until its
/// reversal is posted too, the lines of every span are those that they were, and
/// every account's ledger comes to what it came to.
pub proof fn marking_reversed_changes_no_books(
    entries: Seq<Written>,
    i: int,
    marked: Written,
    by: u128,
    from: Option<Day>,
    to: Option<Day>,
    id: u128,
)
    requires
        0 <= i < entries.len(),
        entries[i].entry.status == EntryStatus::Posted,
        marked.entry == once_reversed(entries[i].entry, by),
        marked.postings == entries[i].postings,
    ensures
        ({
            let after = entries.update(i, marked);
            &&& counted_lines(after, from, to) == counted_lines(entries, from, to)
            &&& tally(posted_to(after, id, from, to, after.len()), pair_worth()) == tally(
                posted_to(entries, id, from, to, entries.len()),
                pair_worth(),
            )
        }),
{
    let after = entries.update(i, marked);
    lemma_marked(entries, i, marked, from, to, id, entries.len());
    lemma_posted_worth(entries, id, from, to, entries.len());
    lemma_posted_worth(after, id, from, to, after.len());
}

/// What a mirror debits, its lines credit.
proof fn lemma_mirror_amounts(
    m: Written,
    original: Entry,
    lines: Seq<Posting>,
    reason: Seq<char>,
    date: Date,
    naming: Naming,
    number: Seq<char>,
    id: u128,
    n: nat,
)
    requires
        is_reversal(m, original, lines, reason, date, naming, number),
        n <= lines.len(),
    ensures
        picked_to(m.postings@, on_account(id), its_debit(), n) == picked_to(
            lines,
            on_account(id),
            its_credit(),
            n,
        ),
        picked_to(m.postings@, on_account(id), its_credit(), n) == picked_to(
            lines,
            on_account(id),
            its_debit(),
            n,
        ),
    decreases n,
{
    if n > 0 {
        lemma_mirror_amounts(
            m,
            original,
            lines,
            reason,
            date,
            naming,
            number,
            id,
            (n - 1) as nat,
        );
        let swapped = m.postings@[n - 1];
        assert(swapped.account_id == lines[n - 1].account_id);
    }
}

/// Reversing an entry undoes it in the books and hides nothing: over a span that
/// holds both, an entry that was posted and reversed leaves every account's net,
/// in the totals and in its ledger, at what it is without them, and both its own
/// amounts and those of its reversal stay on the two sides of the account. It
/// does not matter where in the journal the entry stands.
pub proof fn reversed_entries_net_to_zero(
    entries: Seq<Written>,
    i: int,
    w: Written,
    m: Written,
    reason: Seq<char>,
    date: Date,
    naming: Naming,
    number: Seq<char>,
    marked: Written,
    from: Option<Day>,
    to: Option<Day>,
    id: u128,
)
    requires
        0 <= i <= entries.len(),
        is_span(from, to),
        w.entry.status == EntryStatus::Posted,
        is_reversal(m, w.entry, w.postings@, reason, date, naming, number),
        marked.entry == once_reversed(w.entry, naming.id),
        marked.postings == w.postings,
        is_date(w.entry.entry_date@),
        is_date(date@),
        in_span(w.entry.entry_date@, from, to),
        in_span(date@, from, to),
    ensures
        ({
            let all = entries.insert(i, marked).push(m);
            let before = counted_lines(entries, from, to);
            let after = counted_lines(all, from, to);
            let turned = worth_of(debits(w.postings@, id)) + worth_of(credits(w.postings@, id));
            &&& effect(after, id) == effect(before, id)
            &&& worth_of(debits(after, id)) == worth_of(debits(before, id)) + turned
            &&& worth_of(credits(after, id)) == worth_of(credits(before, id)) + turned
            &&& tally(posted_to(all, id, from, to, all.len()), pair_worth()) == tally(
                posted_to(entries, id, from, to, entries.len()),
                pair_worth(),
            )
        }),
{
    let half = entries.insert(i, marked);
    let all = half.push(m);
    assert(all =~= half.insert(half.len() as int, m));
    lemma_one_entry(entries, i, marked, from, to, id);
    lemma_one_entry(half, half.len() as int, m, from, to, id);
    lemma_mirror_amounts(
        m,
        w.entry,
        w.postings@,
        reason,
        date,
        naming,
        number,
        id,
        w.postings@.len(),
    );
    lemma_effect(m.postings@, id, m.postings@.len());
    lemma_effect(w.postings@, id, w.postings@.len());
    lemma_posted_worth(entries, id, from, to, entries.len());
    lemma_posted_worth(all, id, from, to, all.len());
}

/// The totals say so too, wherever they are added up without rounding: over a span
/// that holds an entry and its reversal, an account's net is what it is without
/// them, and its two sides hold the amounts of both.
pub proof fn totals_keep_both_sides_of_a_reversal(
    entries: Seq<Written>,
    i: int,
    w: Written,
    m: Written,
    reason: Seq<char>,
    date: Date,
    naming: Naming,
    number: Seq<char>,
    marked: Written,
    from: Option<Day>,
    to: Option<Day>,
    id: u128,
    without: Seq<Totals>,
    with: Seq<Totals>,
)
    requires
        0 <= i <= entries.len(),
        is_span(from, to),
        w.entry.status == EntryStatus::Posted,
        is_reversal(m, w.entry, w.postings@, reason, date, naming, number),
        marked.entry == once_reversed(w.entry, naming.id),
        marked.postings == w.postings,
        is_date(w.entry.entry_date@),
        is_date(date@),
        in_span(w.entry.entry_date@, from, to),
        in_span(date@, from, to),
        ({
            let before = counted_lines(entries, from, to);
            let after = counted_lines(entries.insert(i, marked).push(m), from, to);
            &&& are_totals(without, before)
            &&& are_totals(with, after)
            &&& adds_exactly(debits(before, id))
            &&& adds_exactly(credits(before, id))
            &&& adds_exactly(debits(after, id))
            &&& adds_exactly(credits(after, id))
        }),
    ensures
        net_worth(with, id) == net_worth(without, id),
        worth(debit_of(with, id)) == worth(debit_of(without, id)) + worth_of(
            debits(w.postings@, id),
        ) + worth_of(credits(w.postings@, id)),
        worth(credit_of(with, id)) == worth(credit_of(without, id)) + worth_of(
            debits(w.postings@, id),
        ) + worth_of(credits(w.postings@, id)),
{
    reversed_entries_net_to_zero(
        entries,
        i,
        w,
        m,
        reason,
        date,
        naming,
        number,
        marked,
        from,
        to,
        id,
    );
    lemma_totals_hold(without, counted_lines(entries, from, to), id);
    lemma_totals_hold(with, counted_lines(entries.insert(i, marked).push(m), from, to), id);
}

/// Posting a draft brings its lines into the books, and only then: over a span that
/// holds its day each account gains what the draft's lines say, and a draft left as
/// it is gives it nothing.
pub proof fn posting_brings_a_draft_into_the_books(
    entries: Seq<Written>,
    i: int,
    draft: Written,
    w: Written,
    number: Seq<char>,
    at: i64,
    from: Option<Day>,
    to: Option<Day>,
    id: u128,
)
    requires
        0 <= i <= entries.len(),
        is_span(from, to),
        draft.entry.status == EntryStatus::Draft,
        is_posted_draft(w, draft, number, at),
        is_date(draft.entry.entry_date@),
        in_span(draft.entry.entry_date@, from, to),
    ensures
        effect(counted_lines(entries.insert(i, draft), from, to), id) == effect(
            counted_lines(entries, from, to),
            id,
        ),
        effect(counted_lines(entries.insert(i, w), from, to), id) == effect(
            counted_lines(entries, from, to),
            id,
        ) + effect(draft.postings@, id),
{
    lemma_one_entry(entries, i, draft, from, to, id);
    lemma_one_entry(entries, i, w, from, to, id);
}

/// An account's ledger opens with what came before its first day and with nothing of that
/// day: an entry counts into the opening balance exactly where it was posted and is
/// dated before the day, and among the lines exactly where it is dated on it or later.
pub proof fn ledgers_open_with_what_came_before(
    entries: Seq<Written>,
    i: int,
    w: Written,
    from: Day,
    id: u128,
)
    requires
        0 <= i <= entries.len(),
        is_date(w.entry.entry_date@),
        is_date(from),
        is_date(day_before(from)),
        from != (-262143int, 1int, 1int),
    ensures
        ({
            let more = entries.insert(i, w);
            let day = w.entry.entry_date@;
            let posted = w.entry.status != EntryStatus::Draft;
            let shown = |all: Seq<Written>|
                tally(posted_to(all, id, Some(from), None, all.len()), pair_worth());
            &&& effect(lines_before(more, from), id) == effect(lines_before(entries, from), id)
                + if posted && day_number(day) < day_number(from) {
                effect(w.postings@, id)
            } else {
                0
            }
            &&& shown(more) == shown(entries) + if posted && day_number(from) <= day_number(day) {
                effect(w.postings@, id)
            } else {
                0
            }
        }),
{
    let more = entries.insert(i, w);
    lemma_day_before(from);
    lemma_one_entry(entries, i, w, None, Some(opening_day(from)), id);
    what_is_posted_counts(entries, i, w, Some(from), None, id);
}

} // verus!
