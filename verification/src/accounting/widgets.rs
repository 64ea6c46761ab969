//! The figures of the accounting dashboard.

use super::account::{keys, AccountType, Model as Account, NormalBalance};
use super::journal::{status_text, Entry, Posting, Written};
use super::roles::{held, role_balance};
use super::totals::{are_totals, counted_lines, totals_overflow, totals_range};
use super::ledger::{section, section_total, IncomeStatement, StatementLine, Totals};
use crate::decimal::{worth, zero, Decimal, Num};
use crate::error::{in_range, refusal, Error, Refusal};
use crate::search::{first_from, first_where};
use crate::sort::{arrange, arranged, arranging_keeps_the_elements, arranging_sorts, ranks, Ordered};
use crate::sums::{lemma_total_none, total, total_to};
use crate::text::{opt_text, same, texts};
use crate::tile::{
    day_text, entries, number_or_dash, shares, show_day, show_number, trend, trend_of,
    Entry as Listed, ListItem, Share, Slice, TrendDirection,
};
use crate::windows::{lemma_newest, newest, newest_places, Month};
use vstd::prelude::*;

verus! {

// ---------------------------------------------------------------------------
// Balances
// ---------------------------------------------------------------------------

/// What cash and bank hold together, by the books.
pub fn cash_position(accounts: &Vec<Account>, totals: &Vec<Totals>) -> (r: Result<Decimal, Error>)
    ensures
        match held(accounts@, totals@, seq![keys::CASH@, keys::BANK@], NormalBalance::Debit) {
            Some(n) => r is Ok && r->Ok_0@ == n,
            None => refusal(r) == Some(Refusal::Overflow),
        },
{
    let roles = vec![keys::CASH.to_owned(), keys::BANK.to_owned()];
    assert(texts(roles@) =~= seq![keys::CASH@, keys::BANK@]);
    role_balance(accounts, totals, &roles, NormalBalance::Debit)
}

/// This month's figure and last month's: of the expenses, or of the revenue.
pub fn month_section(this: &IncomeStatement, prev: &IncomeStatement, expenses: bool) -> (r: (
    Decimal,
    Decimal,
))
    ensures
        r == if expenses {
            (this.expenses.total, prev.expenses.total)
        } else {
            (this.revenue.total, prev.revenue.total)
        },
{
    if expenses {
        (this.expenses.total, prev.expenses.total)
    } else {
        (this.revenue.total, prev.revenue.total)
    }
}

/// This month's net income, and which way it points.
pub fn net_income_month(this: &IncomeStatement) -> (r: (Decimal, TrendDirection))
    ensures
        r == (this.net_income, trend(this.net_income@)),
{
    (this.net_income, trend_of(this.net_income))
}

// ---------------------------------------------------------------------------
// Expenses
// ---------------------------------------------------------------------------

impl Ordered for StatementLine {
    /// The largest amount stands first.
    open spec fn precedes(a: Self, b: Self) -> bool {
        worth(b.amount@) < worth(a.amount@)
    }

    fn goes_before(&self, other: &Self) -> (r: bool) {
        other.amount.less(&self.amount)
    }
}

pub open spec fn line_amounts(lines: Seq<StatementLine>) -> Seq<Num> {
    lines.map_values(|l: StatementLine| l.amount@)
}

/// How many expenses the chart names.
pub open spec fn named(n: nat) -> nat {
    if n < 6 {
        n
    } else {
        6
    }
}

/// The slices of sorted expenses: the six largest by name, the rest together,
/// unless it comes to nothing. `None` where it leaves the range.
pub open spec fn slices(lines: Seq<StatementLine>) -> Option<Seq<Share>> {
    let top = Seq::new(named(lines.len()), |k: int| (lines[k].name@, lines[k].amount@));
    match total(line_amounts(lines.skip(named(lines.len()) as int))) {
        None => None,
        Some(other) => Some(
            if other.0 == 0 {
                top
            } else {
                top.push(("Other"@, other))
            },
        ),
    }
}

/// The expenses as a chart: the six largest by name, the rest together.
pub fn expense_breakdown(lines: Vec<StatementLine>) -> (r: Result<Vec<Slice>, Error>)
    ensures
        match slices(arranged(lines@)) {
            Some(list) => r is Ok && shares(r->Ok_0@) == list,
            None => refusal(r) == Some(Refusal::Overflow),
        },
{
    let sorted = arrange(lines);
    let ghost all = sorted@;
    let ghost rest = all.skip(named(all.len()) as int);
    let mut out: Vec<Slice> = Vec::new();
    let mut i: usize = 0;
    while i < sorted.len() && i < 6
        invariant
            i <= sorted.len(),
            i <= 6,
            all == sorted@,
            out@.len() == i,
            forall|k: int| 0 <= k < i ==> (#[trigger] out@[k])@ == (all[k].name@, all[k].amount@),
        decreases sorted.len() - i,
    {
        out.push(Slice { label: sorted[i].name.clone(), amount: sorted[i].amount });
        i = i + 1;
    }
    let ghost top = Seq::new(named(all.len()), |k: int| (all[k].name@, all[k].amount@));
    assert(i == named(all.len()));
    assert(shares(out@) =~= top);
    let start = i;
    let mut other = Decimal::zero();
    while i < sorted.len()
        invariant
            start <= i <= sorted.len(),
            all == sorted@,
            all == arranged(lines@),
            start == named(all.len()),
            rest == all.skip(start as int),
            total_to(line_amounts(rest), (i - start) as nat) == Some(other@),
        decreases sorted.len() - i,
    {
        proof {
            let n = (i - start) as nat;
            assert(rest[n as int] == all[i as int]);
            assert(line_amounts(rest)[n as int] == all[i as int].amount@);
            if total_to(line_amounts(rest), n + 1) is None {
                lemma_total_none(line_amounts(rest), n + 1, rest.len());
            }
        }
        other = in_range(other.checked_add(sorted[i].amount))?;
        i = i + 1;
    }
    assert(rest.len() == all.len() - start);
    if !other.is_zero() {
        let slice = Slice { label: "Other".to_owned(), amount: other };
        out.push(slice);
        assert(shares(out@) =~= top.push(("Other"@, other@)));
    }
    Ok(out)
}

/// The five largest expenses.
pub open spec fn largest(lines: Seq<StatementLine>) -> Seq<Listed> {
    Seq::new(
        if lines.len() < 5 {
            lines.len()
        } else {
            5
        },
        |k: int| (lines[k].name@, lines[k].code@, lines[k].amount@),
    )
}

/// The five largest expenses, the largest first.
pub fn top_expenses(lines: Vec<StatementLine>) -> (r: Vec<ListItem>)
    ensures
        entries(r@) == largest(arranged(lines@)),
{
    let sorted = arrange(lines);
    let mut out: Vec<ListItem> = Vec::new();
    let mut i: usize = 0;
    while i < sorted.len() && i < 5
        invariant
            i <= sorted.len(),
            i <= 5,
            out@.len() == i,
            forall|k: int|
                0 <= k < i ==> (#[trigger] out@[k])@ == (
                    sorted@[k].name@,
                    sorted@[k].code@,
                    sorted@[k].amount@,
                ),
        decreases sorted.len() - i,
    {
        let l = &sorted[i];
        out.push(
            ListItem { title: l.name.clone(), subtitle: l.code.clone(), value: l.amount },
        );
        i = i + 1;
    }
    assert(entries(out@) =~= largest(sorted@));
    out
}

// ---------------------------------------------------------------------------
// Months
// ---------------------------------------------------------------------------

/// What a month booked.
#[derive(Debug)]
pub struct MonthFigures {
    /// The month, as `2026-07`.
    pub month: String,
    pub revenue: Decimal,
    pub expense: Decimal,
}

/// The lines that were booked in a month.
pub open spec fn lines_in(m: Month, entries: Seq<Written>) -> Seq<Posting> {
    counted_lines(entries, Some(m.from@), Some(m.to@))
}

/// Whether figures are what a month booked: what its lines come to on the
/// revenue and on the expense accounts.
pub open spec fn are_figures(
    f: MonthFigures,
    m: Month,
    accounts: Seq<Account>,
    entries: Seq<Written>,
) -> bool {
    &&& f.month@ == m.key@
    &&& exists|totals: Seq<Totals>|
        {
            &&& #[trigger] are_totals(totals, lines_in(m, entries))
            &&& section_total(accounts, totals, AccountType::Revenue) == Some(f.revenue@)
            &&& section_total(accounts, totals, AccountType::Expense) == Some(f.expense@)
        }
}

/// Whether a figure of a month leaves the range.
pub open spec fn month_overflows(m: Month, accounts: Seq<Account>, entries: Seq<Written>) -> bool {
    ||| totals_overflow(lines_in(m, entries))
    ||| exists|totals: Seq<Totals>|
        {
            &&& #[trigger] are_totals(totals, lines_in(m, entries))
            &&& section_total(accounts, totals, AccountType::Revenue) is None || section_total(
                accounts,
                totals,
                AccountType::Expense,
            ) is None
        }
}

fn figures_of(m: &Month, accounts: &Vec<Account>, entries: &Vec<Written>) -> (r: Result<
    MonthFigures,
    Error,
>)
    ensures
        match r {
            Ok(f) => are_figures(f, *m, accounts@, entries@),
            Err(e) => e@ == Refusal::Overflow && month_overflows(*m, accounts@, entries@),
        },
{
    let totals = totals_range(entries, Some(m.from), Some(m.to))?;
    assert(are_totals(totals@, lines_in(*m, entries@)));
    let revenue = section("Revenue", accounts, &totals, AccountType::Revenue)?;
    let expenses = section("Expenses", accounts, &totals, AccountType::Expense)?;
    Ok(MonthFigures { month: m.key.clone(), revenue: revenue.total, expense: expenses.total })
}

/// What each of the months booked, by the journal.
pub fn monthly_pnl(months: &Vec<Month>, accounts: &Vec<Account>, entries: &Vec<Written>) -> (r: Result<
    Vec<MonthFigures>,
    Error,
>)
    ensures
        match r {
            Ok(list) => list@.len() == months@.len() && forall|i: int|
                0 <= i < months@.len() ==> are_figures(
                    #[trigger] list@[i],
                    months@[i],
                    accounts@,
                    entries@,
                ),
            Err(e) => e@ == Refusal::Overflow && exists|i: int|
                0 <= i < months@.len() && month_overflows(
                    #[trigger] months@[i],
                    accounts@,
                    entries@,
                ),
        },
{
    let mut out: Vec<MonthFigures> = Vec::new();
    let mut i: usize = 0;
    while i < months.len()
        invariant
            i <= months.len(),
            out@.len() == i,
            forall|k: int|
                0 <= k < i ==> are_figures(#[trigger] out@[k], months@[k], accounts@, entries@),
        decreases months.len() - i,
    {
        match figures_of(&months[i], accounts, entries) {
            Ok(f) => {
                out.push(f);
            },
            Err(e) => {
                assert(month_overflows(months@[i as int], accounts@, entries@));
                return Err(e);
            },
        }
        i = i + 1;
    }
    Ok(out)
}

pub open spec fn of_month(month: Seq<char>) -> spec_fn(MonthFigures) -> bool {
    |m: MonthFigures| m.month@ == month
}

/// What a month booked; nothing where it is not listed.
pub open spec fn booked(figures: Seq<MonthFigures>, month: Seq<char>) -> (Num, Num) {
    match first_where(figures, of_month(month)) {
        Some(m) => (m.revenue@, m.expense@),
        None => (zero(), zero()),
    }
}

/// The revenue and the expenses of each month that is asked for.
pub fn revenue_vs_expenses(figures: &Vec<MonthFigures>, months: &Vec<String>) -> (r: (
    Vec<Decimal>,
    Vec<Decimal>,
))
    ensures
        r.0@.len() == months@.len(),
        r.1@.len() == months@.len(),
        forall|i: int|
            0 <= i < months@.len() ==> (#[trigger] r.0@[i])@ == booked(
                figures@,
                months@[i]@,
            ).0,
        forall|i: int|
            0 <= i < months@.len() ==> (#[trigger] r.1@[i])@ == booked(
                figures@,
                months@[i]@,
            ).1,
{
    let mut revenue: Vec<Decimal> = Vec::new();
    let mut expenses: Vec<Decimal> = Vec::new();
    let mut i: usize = 0;
    while i < months.len()
        invariant
            i <= months.len(),
            revenue@.len() == i,
            expenses@.len() == i,
            forall|k: int|
                0 <= k < i ==> (#[trigger] revenue@[k])@ == booked(figures@, months@[k]@).0,
            forall|k: int|
                0 <= k < i ==> (#[trigger] expenses@[k])@ == booked(figures@, months@[k]@).1,
        decreases months.len() - i,
    {
        let (a, b) = find_month(figures, months[i].as_str());
        revenue.push(a);
        expenses.push(b);
        i = i + 1;
    }
    (revenue, expenses)
}

fn find_month(figures: &Vec<MonthFigures>, month: &str) -> (r: (Decimal, Decimal))
    ensures
        (r.0@, r.1@) == booked(figures@, month@),
{
    let mut i: usize = 0;
    while i < figures.len()
        invariant
            i <= figures.len(),
            first_from(figures@, of_month(month@), 0)
                == first_from(figures@, of_month(month@), i as int),
        decreases figures.len() - i,
    {
        if same(figures[i].month.as_str(), month) {
            return (figures[i].revenue, figures[i].expense);
        }
        i = i + 1;
    }
    (Decimal::zero(), Decimal::zero())
}

/// The row of an entry among the recent ones.
pub open spec fn journal_cells(e: Entry) -> Seq<Seq<char>> {
    seq![
        number_or_dash(opt_text(e.number)),
        day_text(e.entry_date@),
        e.memo@,
        status_text(e.status),
    ]
}

/// The row of an entry among the recent ones.
pub fn recent_journal(e: &Entry) -> (r: Vec<String>)
    ensures
        texts(r@) == journal_cells(*e),
{
    let cells = vec![
        show_number(&e.number),
        show_day(&e.entry_date),
        e.memo.clone(),
        e.status.as_str().to_owned(),
    ];
    assert(texts(cells@) =~= journal_cells(*e));
    cells
}

/// When entries were written.
pub open spec fn written_at(entries: Seq<Written>) -> Seq<i64> {
    entries.map_values(|w: Written| w.entry.created_at)
}

/// The rows of the entries that were written last, the latest first.
pub fn recent_journals(entries: &Vec<Written>) -> (r: Vec<Vec<String>>)
    ensures
        ({
            let newest = newest_places(written_at(entries@));
            r@.len() == newest.len() && forall|i: int|
                0 <= i < newest.len() ==> texts((#[trigger] r@[i])@) == journal_cells(
                    entries@[newest[i].index as int].entry,
                )
        }),
{
    let mut moments: Vec<i64> = Vec::new();
    let mut i: usize = 0;
    while i < entries.len()
        invariant
            i <= entries.len(),
            moments@ == written_at(entries@).take(i as int),
        decreases entries.len() - i,
    {
        moments.push(entries[i].entry.created_at);
        assert(moments@ =~= written_at(entries@).take(i + 1));
        i = i + 1;
    }
    assert(moments@ =~= written_at(entries@));
    let found = newest(&moments);
    proof {
        lemma_newest(moments@);
    }
    let mut out: Vec<Vec<String>> = Vec::new();
    let mut k: usize = 0;
    while k < found.len()
        invariant
            k <= found.len(),
            out@.len() == k,
            forall|j: int| 0 <= j < found@.len() ==> (#[trigger] found@[j]).index < entries@.len(),
            forall|j: int|
                0 <= j < k ==> texts((#[trigger] out@[j])@) == journal_cells(
                    entries@[found@[j].index as int].entry,
                ),
        decreases found.len() - k,
    {
        out.push(recent_journal(&entries[found[k].index].entry));
        k = k + 1;
    }
    out
}

// ---------------------------------------------------------------------------
// Laws
// ---------------------------------------------------------------------------

/// Expenses have an order that ranks them.
proof fn lemma_expenses_rank()
    ensures
        ranks::<StatementLine>(),
{
}

/// The largest expenses stand first: none that is listed, or named in the chart, is smaller
/// than one that is not. The list holds five of them and the chart names six, or all
/// where there are fewer; what the chart does not name it shows together, as the sum
/// of the rest.
pub proof fn the_largest_expenses_stand_out(lines: Seq<StatementLine>, i: int, j: int)
    requires
        0 <= i < j < lines.len(),
    ensures
        ({
            let sorted = arranged(lines);
            &&& sorted.to_multiset() == lines.to_multiset()
            &&& sorted.len() == lines.len()
            &&& worth(sorted[j].amount@) <= worth(sorted[i].amount@)
            &&& largest(sorted).len() == if lines.len() < 5 {
                lines.len() as int
            } else {
                5
            }
            &&& i < largest(sorted).len() ==> largest(sorted)[i] == (
                sorted[i].name@,
                sorted[i].code@,
                sorted[i].amount@,
            )
            &&& slices(sorted) matches Some(shown) ==> {
                &&& i < 6 ==> shown[i] == (sorted[i].name@, sorted[i].amount@)
                &&& lines.len() <= 6 ==> shown.len() == lines.len()
                &&& lines.len() > 6 ==> (total(line_amounts(sorted.skip(6))) matches Some(rest)
                    && (rest.0 != 0 ==> shown.len() == 7 && shown[6].1 == rest) && (rest.0 == 0
                    ==> shown.len() == 6))
            }
        }),
{
    let sorted = arranged(lines);
    lemma_expenses_rank();
    arranging_sorts(lines);
    arranging_keeps_the_elements(lines);
    if lines.len() <= 6 {
        let rest = sorted.skip(sorted.len() as int);
        assert(line_amounts(rest) =~= Seq::empty());
        assert(total(line_amounts(rest)) == Some(zero()));
    }
}

} // verus!
