//! The ledger of an account over a span of days, out of the journal.

use super::account::{has_id, normal_side, position_by_id, Model as Account, NormalBalance};
use super::journal::{effect, effect_to, Entry, Posting, Written};
use super::ledger::{
    found, is_run, on_side, opening_of, position, running_to, shows_line, AccountLedger,
    LedgerQueries, PostedLine, Totals,
};
use super::totals::{
    adds_up, are_totals, counted_lines, counted_lines_to, counts, counts_in, credits, debits,
    lemma_effect, totals_overflow, totals_range,
};
use crate::date::{
    day_before, earlier, is_date, lemma_day_before, lemma_day_number_orders, opt_day, Date, Day,
};
use crate::decimal::{max_places, worth, zero, Num};
use crate::error::{refusal, Error, Refusal};
use crate::search::first_where;
use crate::sort::{arrange, arranged, arranging_sorts, ranks, Ordered};
use crate::sums::{
    adds_exactly, exact_sum, lemma_sum_exact, lemma_tally_agrees, lemma_tally_arranged,
    lemma_worth_sign, nets_exactly, tally, tally_to, total,
};
use crate::text::{cat2, copy_text, id_text, opt_text, show_id};
use vstd::prelude::*;

verus! {

/// Those of the first `n` lines of an entry that are posted to an account, each
/// with the entry's head.
pub open spec fn own_lines_to(w: Written, id: u128, n: nat) -> Seq<(Entry, Posting)>
    decreases n,
{
    if n == 0 {
        Seq::empty()
    } else {
        let rest = own_lines_to(w, id, (n - 1) as nat);
        if w.postings@[n - 1].account_id == id {
            rest.push((w.entry, w.postings@[n - 1]))
        } else {
            rest
        }
    }
}

/// The lines that those of the first `n` entries that count post to an account.
pub open spec fn posted_to(
    entries: Seq<Written>,
    id: u128,
    from: Option<Day>,
    to: Option<Day>,
    n: nat,
) -> Seq<(Entry, Posting)>
    decreases n,
{
    if n == 0 {
        Seq::empty()
    } else {
        let rest = posted_to(entries, id, from, to, (n - 1) as nat);
        let w = entries[n - 1];
        if counts(w, from, to) {
            rest + own_lines_to(w, id, w.postings@.len())
        } else {
            rest
        }
    }
}

/// Whether a line of a ledger is a line of an entry.
pub open spec fn is_posted(l: PostedLine, p: (Entry, Posting)) -> bool {
    &&& l.entry_id == p.0.id
    &&& opt_text(l.number) == opt_text(p.0.number)
    &&& l.entry_date == p.0.entry_date
    &&& l.posted_at == p.0.posted_at
    &&& l.line_no == p.1.line_no
    &&& l.memo@ == p.0.memo@
    &&& opt_text(l.reference) == opt_text(p.0.reference)
    &&& l.debit == p.1.debit
    &&& l.credit == p.1.credit
}

pub open spec fn are_posted(rows: Seq<PostedLine>, lines: Seq<(Entry, Posting)>) -> bool {
    &&& rows.len() == lines.len()
    &&& forall|i: int| 0 <= i < rows.len() ==> is_posted(#[trigger] rows[i], lines[i])
}

/// Whether a moment lies before another one; none lies behind all.
pub open spec fn sooner(a: Option<i64>, b: Option<i64>) -> bool {
    match (a, b) {
        (Some(x), Some(y)) => x < y,
        (Some(_), None) => true,
        (None, _) => false,
    }
}

impl Ordered for PostedLine {
    /// The earliest date stands first, on one date what was posted first, and of
    /// one moment the line with the smallest number.
    open spec fn precedes(a: Self, b: Self) -> bool {
        ||| earlier(a.entry_date@, b.entry_date@)
        ||| a.entry_date@ == b.entry_date@ && (sooner(a.posted_at, b.posted_at) || (a.posted_at
            == b.posted_at && a.line_no < b.line_no))
    }

    fn goes_before(&self, other: &Self) -> (r: bool) {
        let first = match (self.posted_at, other.posted_at) {
            (Some(x), Some(y)) => x < y || (x == y && self.line_no < other.line_no),
            (Some(_), None) => true,
            (None, Some(_)) => false,
            (None, None) => self.line_no < other.line_no,
        };
        self.entry_date.is_before(&other.entry_date) || (self.entry_date.is_same(&other.entry_date)
            && first)
    }
}

/// The lines that are posted to an account over a span of days, by date, and on
/// one date by the moment at which their entries were posted.
pub fn posted_lines(entries: &Vec<Written>, id: u128, from: Option<Date>, to: Option<Date>) -> (r: Vec<
    PostedLine,
>)
    ensures
        exists|rows: Seq<PostedLine>|
            #[trigger] are_posted(
                rows,
                posted_to(entries@, id, opt_day(from), opt_day(to), entries@.len()),
            ) && r@ == arranged(rows),
{
    let ghost f = opt_day(from);
    let ghost t = opt_day(to);
    let mut rows: Vec<PostedLine> = Vec::new();
    let mut i: usize = 0;
    while i < entries.len()
        invariant
            i <= entries.len(),
            f == opt_day(from),
            t == opt_day(to),
            are_posted(rows@, posted_to(entries@, id, f, t, i as nat)),
        decreases entries.len() - i,
    {
        let w = &entries[i];
        if counts_in(w, &from, &to) {
            let ghost before = posted_to(entries@, id, f, t, i as nat);
            let mut k: usize = 0;
            assert(before + own_lines_to(*w, id, 0) =~= before);
            while k < w.postings.len()
                invariant
                    k <= w.postings.len(),
                    are_posted(rows@, before + own_lines_to(*w, id, k as nat)),
                decreases w.postings.len() - k,
            {
                let p = &w.postings[k];
                if p.account_id == id {
                    let ghost shown = before + own_lines_to(*w, id, k as nat);
                    rows.push(
                        PostedLine {
                            entry_id: w.entry.id,
                            number: copy_text(&w.entry.number),
                            entry_date: w.entry.entry_date,
                            posted_at: w.entry.posted_at,
                            line_no: p.line_no,
                            memo: w.entry.memo.clone(),
                            reference: copy_text(&w.entry.reference),
                            debit: p.debit,
                            credit: p.credit,
                        },
                    );
                    assert(before + own_lines_to(*w, id, (k + 1) as nat) =~= shown.push(
                        (w.entry, *p),
                    ));
                }
                k = k + 1;
            }
        }
        i = i + 1;
    }
    assert(are_posted(rows@, posted_to(entries@, id, f, t, entries@.len())));
    arrange(rows)
}

/// The last day that an opening balance takes in.
pub open spec fn opening_day(from: Day) -> Day {
    if from == (-262143int, 1int, 1int) {
        from
    } else {
        day_before(from)
    }
}

/// What was posted before a day.
pub open spec fn lines_before(entries: Seq<Written>, from: Day) -> Seq<Posting> {
    counted_lines(entries, None, Some(opening_day(from)))
}

/// Whether totals of an account are those of lines.
pub open spec fn sums_up(before: Option<Totals>, id: u128, lines: Seq<Posting>) -> bool {
    exists|totals: Seq<Totals>|
        #[trigger] are_totals(totals, lines) && before == found(totals, id)
}

/// Whether totals of an account are what its ledger opens with: all that was
/// posted before the first day, or nothing where there is no first day.
pub open spec fn opens_with(
    before: Option<Totals>,
    entries: Seq<Written>,
    id: u128,
    from: Option<Day>,
) -> bool {
    match from {
        None => before is None,
        Some(f) => sums_up(before, id, lines_before(entries, f)),
    }
}

impl LedgerQueries {
    /// A single account's ledger over a span of days: what was posted to it
    /// before, and each line with the balance after it.
    pub fn account_ledger(
        &self,
        entries: &Vec<Written>,
        id: u128,
        from: Option<Date>,
        to: Option<Date>,
    ) -> (r: Result<AccountLedger, Error>)
        ensures
            match first_where(self.accounts@, has_id(id)) {
                None => refusal(r) == Some(Refusal::NotFound("account "@ + id_text(id))),
                Some(account) => {
                    ||| refusal(r) == Some(Refusal::Overflow) && from is Some && totals_overflow(
                        lines_before(entries@, opt_day(from)->0),
                    )
                    ||| exists|before: Option<Totals>, rows: Seq<PostedLine>|
                        {
                            &&& #[trigger] opens_with(before, entries@, id, opt_day(from))
                            &&& #[trigger] are_posted(
                                rows,
                                posted_to(
                                    entries@,
                                    id,
                                    opt_day(from),
                                    opt_day(to),
                                    entries@.len(),
                                ),
                            )
                            &&& is_run(r, account, before, arranged(rows))
                        }
                },
            },
    {
        if position_by_id(&self.accounts, id).is_none() {
            let shown = show_id(id);
            return Err(Error::NotFound(cat2("account ", shown.as_str())));
        }
        let before = match from {
            None => None,
            Some(f) => {
                let day = match f.pred() {
                    Some(d) => d,
                    None => f,
                };
                assert(day@ == opening_day(f@));
                let totals = match totals_range(entries, None, Some(day)) {
                    Ok(totals) => totals,
                    Err(e) => {
                        return Err(e);
                    },
                };
                let held = match position(&totals, id) {
                    Some(k) => Some(totals[k]),
                    None => None,
                };
                proof {
                    assert(are_totals(totals@, lines_before(entries@, f@)));
                    assert(held == found(totals@, id));
                    assert(sums_up(held, id, lines_before(entries@, f@)));
                }
                held
            },
        };
        assert(opens_with(before, entries@, id, opt_day(from)));
        let lines = posted_lines(entries, id, from, to);
        self.run_ledger(id, before, &lines)
    }
}

// ---------------------------------------------------------------------------
// Laws
// ---------------------------------------------------------------------------

proof fn lemma_lines_rank()
    ensures
        ranks::<PostedLine>(),
{
    assert forall|a: PostedLine, b: PostedLine, c: PostedLine|
        #![trigger PostedLine::precedes(b, a), PostedLine::precedes(c, b)]
        !PostedLine::precedes(b, a) && !PostedLine::precedes(c, b) implies !PostedLine::precedes(
        c,
        a,
    ) by {
        let (x, y, z) = (a.entry_date@, b.entry_date@, c.entry_date@);
        assert(x != y ==> earlier(x, y) || earlier(y, x));
        assert(y != z ==> earlier(y, z) || earlier(z, y));
    }
}

/// The lines of an account's ledger stand by date. It closes with the balance of
/// its last line, or with what it opens with where it has none; and where nothing
/// was posted before, that is zero.
pub proof fn ledgers_run_by_date(
    l: AccountLedger,
    account: Account,
    before: Option<Totals>,
    rows: Seq<PostedLine>,
)
    requires
        is_run(Ok(l), account, before, arranged(rows)),
    ensures
        forall|i: int, j: int|
            0 <= i < j < l.lines@.len() ==> !earlier(
                (#[trigger] l.lines@[j]).entry_date@,
                (#[trigger] l.lines@[i]).entry_date@,
            ),
        l.closing_balance@ == if l.lines@.len() == 0 {
            l.opening_balance@
        } else {
            l.lines@.last().balance@
        },
        before is None ==> l.opening_balance@ == zero(),
{
    let lines = arranged(rows);
    lemma_lines_rank();
    arranging_sorts(rows);
    assert forall|i: int, j: int| 0 <= i < j < l.lines@.len() implies !earlier(
        (#[trigger] l.lines@[j]).entry_date@,
        (#[trigger] l.lines@[i]).entry_date@,
    ) by {
        assert(!PostedLine::precedes(lines[j], lines[i]));
        assert(shows_line(l.lines@[i], lines[i]));
        assert(shows_line(l.lines@[j], lines[j]));
    }
    if l.lines@.len() > 0 {
        assert(shows_line(l.lines@[lines.len() - 1], lines[lines.len() - 1]));
    }
}

/// Debits count up on one natural side, and down on the other.
pub open spec fn sign_of(side: NormalBalance) -> int {
    match side {
        NormalBalance::Debit => 1,
        NormalBalance::Credit => -1,
    }
}

/// What a line adds: its debit less its credit.
pub open spec fn line_worth() -> spec_fn(PostedLine) -> int {
    |l: PostedLine| worth(l.debit@) - worth(l.credit@)
}

/// Whether what lines add to an account is computed without rounding.
pub open spec fn sums_exactly(lines: Seq<Posting>, id: u128) -> bool {
    &&& adds_exactly(debits(lines, id))
    &&& adds_exactly(credits(lines, id))
    &&& nets_exactly(total(debits(lines, id))->0, total(credits(lines, id))->0)
}

/// Whether a running balance is computed without rounding.
pub open spec fn runs_exactly(opening: Num, lines: Seq<PostedLine>, side: NormalBalance) -> bool {
    forall|i: int|
        0 <= i < lines.len() ==> nets_exactly((#[trigger] lines[i]).debit@, lines[i].credit@) && (
        match (running_to(opening, lines, side, i as nat), on_side(
            side,
            lines[i].debit@,
            lines[i].credit@,
        )) {
            (Some(a), Some(b)) => exact_sum(a, b),
            _ => true,
        })
}

proof fn lemma_side_worth(side: NormalBalance, debit: Num, credit: Num)
    requires
        nets_exactly(debit, credit),
    ensures
        on_side(side, debit, credit) is Some,
        (on_side(side, debit, credit)->0).1 <= max_places(),
        worth(on_side(side, debit, credit)->0) == sign_of(side) * (worth(debit) - worth(credit)),
{
}

proof fn lemma_running_exact(opening: Num, lines: Seq<PostedLine>, side: NormalBalance, n: nat)
    requires
        n <= lines.len(),
        opening.1 <= max_places(),
        runs_exactly(opening, lines, side),
    ensures
        running_to(opening, lines, side, n) is Some,
        (running_to(opening, lines, side, n)->0).1 <= max_places(),
        worth(running_to(opening, lines, side, n)->0) == worth(opening) + sign_of(side) * tally_to(
            lines,
            line_worth(),
            n,
        ),
    decreases n,
{
    if n > 0 {
        lemma_running_exact(opening, lines, side, (n - 1) as nat);
        let l = lines[n - 1];
        lemma_side_worth(side, l.debit@, l.credit@);
    }
}

proof fn lemma_opening_exact(account: Account, before: Option<Totals>, lines: Seq<Posting>)
    requires
        sums_up(before, account.id, lines),
        sums_exactly(lines, account.id),
    ensures
        opening_of(account, before) is Some,
        (opening_of(account, before)->0).1 <= max_places(),
        worth(opening_of(account, before)->0) == sign_of(normal_side(account.account_type)) * effect(
            lines,
            account.id,
        ),
{
    let id = account.id;
    let side = normal_side(account.account_type);
    let totals = choose|totals: Seq<Totals>| #[trigger]
        are_totals(totals, lines) && before == found(totals, id);
    assert(adds_up(totals, lines, id));
    let d = debits(lines, id);
    let c = credits(lines, id);
    lemma_effect(lines, id, lines.len());
    lemma_sum_exact(d, d.len());
    lemma_sum_exact(c, c.len());
    lemma_side_worth(side, total(d)->0, total(c)->0);
    lemma_worth_sign(zero());
}

proof fn lemma_effect_agrees(a: Seq<Posting>, b: Seq<Posting>, id: u128, n: nat)
    requires
        forall|i: int| 0 <= i < n ==> a[i] == b[i],
    ensures
        effect_to(a, id, n) == effect_to(b, id, n),
    decreases n,
{
    if n > 0 {
        lemma_effect_agrees(a, b, id, (n - 1) as nat);
    }
}

proof fn lemma_effect_adds(a: Seq<Posting>, b: Seq<Posting>, id: u128, n: nat)
    requires
        n <= b.len(),
    ensures
        effect_to(a + b, id, a.len() + n) == effect(a, id) + effect_to(b, id, n),
    decreases n,
{
    if n == 0 {
        lemma_effect_agrees(a + b, a, id, a.len());
    } else {
        lemma_effect_adds(a, b, id, (n - 1) as nat);
        assert((a + b)[a.len() + n - 1] == b[n - 1]);
    }
}

/// What a posted line adds.
pub open spec fn pair_worth() -> spec_fn((Entry, Posting)) -> int {
    |p: (Entry, Posting)| worth(p.1.debit@) - worth(p.1.credit@)
}

proof fn lemma_own_lines(w: Written, id: u128, head: Seq<(Entry, Posting)>, n: nat)
    requires
        n <= w.postings@.len(),
    ensures
        tally(head + own_lines_to(w, id, n), pair_worth()) == tally(head, pair_worth()) + effect_to(
            w.postings@,
            id,
            n,
        ),
    decreases n,
{
    let f = pair_worth();
    if n == 0 {
        assert(head + own_lines_to(w, id, 0) =~= head);
    } else {
        lemma_own_lines(w, id, head, (n - 1) as nat);
        if w.postings@[n - 1].account_id == id {
            let shown = head + own_lines_to(w, id, (n - 1) as nat);
            let all = head + own_lines_to(w, id, n);
            assert(all =~= shown.push((w.entry, w.postings@[n - 1])));
            lemma_tally_agrees(all, shown, f, shown.len());
        } else {
            assert(own_lines_to(w, id, n) == own_lines_to(w, id, (n - 1) as nat));
        }
    }
}

/// What the lines of an account's ledger add up to is what the books add to it.
pub(crate) proof fn lemma_posted_worth(
    entries: Seq<Written>,
    id: u128,
    from: Option<Day>,
    to: Option<Day>,
    n: nat,
)
    requires
        n <= entries.len(),
    ensures
        tally(posted_to(entries, id, from, to, n), pair_worth()) == effect(
            counted_lines_to(entries, from, to, n),
            id,
        ),
    decreases n,
{
    if n > 0 {
        lemma_posted_worth(entries, id, from, to, (n - 1) as nat);
        let w = entries[n - 1];
        if counts(w, from, to) {
            lemma_own_lines(
                w,
                id,
                posted_to(entries, id, from, to, (n - 1) as nat),
                w.postings@.len(),
            );
            lemma_effect_adds(
                counted_lines_to(entries, from, to, (n - 1) as nat),
                w.postings@,
                id,
                w.postings@.len(),
            );
        }
    }
}

proof fn lemma_rows_worth(rows: Seq<PostedLine>, lines: Seq<(Entry, Posting)>, n: nat)
    requires
        are_posted(rows, lines),
        n <= rows.len(),
    ensures
        tally_to(rows, line_worth(), n) == tally_to(lines, pair_worth(), n),
    decreases n,
{
    if n > 0 {
        lemma_rows_worth(rows, lines, (n - 1) as nat);
        assert(is_posted(rows[n - 1], lines[n - 1]));
    }
}

/// Whether the entries lie on days of the calendar.
pub open spec fn are_dated(entries: Seq<Written>) -> bool {
    forall|i: int| 0 <= i < entries.len() ==> is_date((#[trigger] entries[i]).entry.entry_date@)
}

proof fn lemma_effect_splits(entries: Seq<Written>, id: u128, from: Day, to: Day, n: nat)
    requires
        n <= entries.len(),
        are_dated(entries),
        is_date(from),
        is_date(to),
        is_date(day_before(from)),
        !earlier(to, day_before(from)),
    ensures
        effect(counted_lines_to(entries, None, Some(to), n), id) == effect(
            counted_lines_to(entries, None, Some(day_before(from)), n),
            id,
        ) + effect(counted_lines_to(entries, Some(from), Some(to), n), id),
    decreases n,
{
    if n > 0 {
        lemma_effect_splits(entries, id, from, to, (n - 1) as nat);
        let w = entries[n - 1];
        let d = w.entry.entry_date@;
        let eve = day_before(from);
        lemma_day_before(from);
        lemma_day_number_orders(d, from);
        lemma_day_number_orders(from, d);
        lemma_day_number_orders(d, eve);
        lemma_day_number_orders(eve, d);
        lemma_day_number_orders(d, to);
        lemma_day_number_orders(to, d);
        lemma_day_number_orders(to, eve);
        lemma_day_number_orders(eve, to);
        let a = counted_lines_to(entries, None, Some(to), (n - 1) as nat);
        let b = counted_lines_to(entries, None, Some(eve), (n - 1) as nat);
        let c = counted_lines_to(entries, Some(from), Some(to), (n - 1) as nat);
        lemma_effect_adds(a, w.postings@, id, w.postings@.len());
        lemma_effect_adds(b, w.postings@, id, w.postings@.len());
        lemma_effect_adds(c, w.postings@, id, w.postings@.len());
        assert(counts(w, None, Some(to)) <==> counts(w, None, Some(eve)) || counts(
            w,
            Some(from),
            Some(to),
        ));
        assert(!(counts(w, None, Some(eve)) && counts(w, Some(from), Some(to))));
    }
}

/// What an account closes a span of days with is what it opens the next day
/// with, wherever the sums are computed without rounding.
pub proof fn balances_carry_over(
    account: Account,
    entries: Seq<Written>,
    from: Option<Day>,
    to: Day,
    before: Option<Totals>,
    rows: Seq<PostedLine>,
    span: AccountLedger,
    next: Day,
    carried: Option<Totals>,
)
    requires
        opens_with(before, entries, account.id, from),
        are_posted(rows, posted_to(entries, account.id, from, Some(to), entries.len())),
        is_run(Ok(span), account, before, arranged(rows)),
        opens_with(carried, entries, account.id, Some(next)),
        are_dated(entries),
        is_date(to),
        is_date(next),
        to == day_before(next),
        opening_day(next) == day_before(next),
        from matches Some(f) ==> is_date(f) && is_date(day_before(f)) && opening_day(f)
            == day_before(f) && !earlier(to, day_before(f)),
        from matches Some(f) ==> sums_exactly(lines_before(entries, f), account.id),
        sums_exactly(lines_before(entries, next), account.id),
        runs_exactly(
            opening_of(account, before)->0,
            arranged(rows),
            normal_side(account.account_type),
        ),
    ensures
        opening_of(account, carried) is Some,
        worth(span.closing_balance@) == worth(opening_of(account, carried)->0),
{
    let id = account.id;
    let side = normal_side(account.account_type);
    let opening = opening_of(account, before)->0;
    let lines = arranged(rows);
    let posted = posted_to(entries, id, from, Some(to), entries.len());
    match from {
        None => {
            lemma_worth_sign(zero());
        },
        Some(f) => {
            lemma_opening_exact(account, before, lines_before(entries, f));
            lemma_effect_splits(entries, id, f, to, entries.len());
        },
    }
    lemma_opening_exact(account, carried, lines_before(entries, next));
    lemma_running_exact(opening, lines, side, lines.len());
    lemma_tally_arranged(rows, line_worth());
    lemma_rows_worth(rows, posted, rows.len());
    lemma_posted_worth(entries, id, from, Some(to), entries.len());
    assert(effect(lines_before(entries, next), id) == effect(
        counted_lines(entries, None, Some(to)),
        id,
    ));
    let x = effect(counted_lines(entries, from, Some(to)), id);
    match from {
        None => {},
        Some(f) => {
            let y = effect(lines_before(entries, f), id);
            assert(sign_of(side) * (y + x) == sign_of(side) * y + sign_of(side) * x);
        },
    }
}

} // verus!
