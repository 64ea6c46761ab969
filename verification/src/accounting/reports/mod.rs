//! Accounting reports: the ledger, read back.
//!
//! The three statements that every set of books owes its owner. What they share
//! stands here, and above all the colour that every statement gives an account
//! type.

pub mod balance_sheet;
pub mod income_statement;
pub mod trial_balance;

use crate::accounting::account::AccountType;
use crate::accounting::ledger::{StatementLine, StatementSection};
use crate::figures::{money, money_text};
use crate::report::{heads, toned, Column, ColumnKind, Grid, Head, Line, Row, RowTone, Table};
use crate::text::{cat2, cat4, lower, lower_case, texts};
use vstd::prelude::*;

verus! {

/// The colour that an account type wears, everywhere it appears: what is owned
/// against what is owed, what comes in against what goes out.
pub open spec fn type_tone(t: AccountType) -> RowTone {
    match t {
        AccountType::Asset => RowTone::Blue,
        AccountType::Liability => RowTone::Amber,
        AccountType::Equity => RowTone::Violet,
        AccountType::Revenue => RowTone::Green,
        AccountType::Expense => RowTone::Red,
    }
}

pub fn tone_of(t: AccountType) -> (r: RowTone)
    ensures
        r == type_tone(t),
{
    match t {
        AccountType::Asset => RowTone::Blue,
        AccountType::Liability => RowTone::Amber,
        AccountType::Equity => RowTone::Violet,
        AccountType::Revenue => RowTone::Green,
        AccountType::Expense => RowTone::Red,
    }
}

/// No two account types wear the same colour.
pub proof fn colours_tell_types_apart(a: AccountType, b: AccountType)
    ensures
        type_tone(a) == type_tone(b) ==> a == b,
{
}

/// The columns of a statement.
pub open spec fn statement_columns() -> Seq<Head> {
    seq![("Account"@, ColumnKind::Text), ("Amount"@, ColumnKind::Number)]
}

pub(crate) fn new_statement() -> (r: Table)
    ensures
        r@.title is None,
        r@.heads == statement_columns(),
        r@.lines == Seq::<Line>::empty(),
        r@.totals is None,
{
    let columns = vec![Column::new("Account"), Column::number("Amount")];
    assert(heads(columns@) =~= statement_columns());
    Table::new(columns)
}

/// A row of a statement: a label and an amount.
pub open spec fn two(label: Seq<char>, amount: Seq<char>) -> Seq<Seq<char>> {
    seq![label, amount]
}

pub(crate) fn two_cells(label: String, amount: String) -> (r: Vec<String>)
    ensures
        texts(r@) == two(label@, amount@),
{
    let cells = vec![label, amount];
    assert(texts(cells@) =~= two(label@, amount@));
    cells
}

/// The row of one account in a section.
pub open spec fn section_line(l: StatementLine, tone: RowTone) -> Line {
    toned(two("  "@ + l.code@ + " "@ + l.name@, money_text(l.amount@)), tone, false)
}

/// The rows of a section: a heading, its lines and a subtotal, all in the
/// colour of its type.
pub open spec fn section_lines(s: StatementSection, t: AccountType) -> Seq<Line> {
    let tone = type_tone(t);
    seq![toned(two(s.title@, ""@), tone, true)] + Seq::new(
        s.lines@.len(),
        |k: int| section_line(s.lines@[k], tone),
    ) + seq![toned(two("Total "@ + lower_case(s.title@), money_text(s.total@)), tone, true)]
}

/// Append a section to a statement.
pub(crate) fn section_rows(table: &mut Table, s: &StatementSection, t: AccountType)
    ensures
        final(table)@ == (Grid {
            lines: old(table)@.lines + section_lines(*s, t),
            ..old(table)@
        }),
{
    let ghost before = table@;
    let tone = tone_of(t);
    table.add(Row::toned(two_cells(s.title.clone(), "".to_owned()), tone, true));
    let ghost head = toned(two(s.title@, ""@), tone, true);
    let mut i: usize = 0;
    assert(table@.lines =~= before.lines + seq![head] + Seq::new(
        0,
        |k: int| section_line(s.lines@[k], tone),
    ));
    while i < s.lines.len()
        invariant
            i <= s.lines.len(),
            table@.title == before.title,
            table@.heads == before.heads,
            table@.totals == before.totals,
            table@.lines == before.lines + seq![head] + Seq::new(
                i as nat,
                |k: int| section_line(s.lines@[k], tone),
            ),
        decreases s.lines.len() - i,
    {
        let l = &s.lines[i];
        let label = cat4("  ", l.code.as_str(), " ", l.name.as_str());
        table.add(Row::toned(two_cells(label, money(l.amount)), tone, false));
        assert(table@.lines =~= before.lines + seq![head] + Seq::new(
            (i + 1) as nat,
            |k: int| section_line(s.lines@[k], tone),
        ));
        i = i + 1;
    }
    let lowered = lower(s.title.as_str());
    let label = cat2("Total ", lowered.as_str());
    table.add(Row::toned(two_cells(label, money(s.total)), tone, true));
    assert(table@.lines =~= before.lines + section_lines(*s, t));
}

} // verus!
