//! Trial Balance: every account's ending balance in its natural column.
//!
//! The oldest check in bookkeeping: the two columns foot to the same total.

use crate::accounting::account::type_text;
use crate::accounting::ledger::{TrialBalance, TrialBalanceRow};
use crate::accounting::permissions;
use crate::date::{iso_text, opt_day, Date, Day};
use crate::figures::{money, money_text};
use crate::report::{
    heads, is_table_report, toned, Column, ColumnKind, Grid, Head, Line, Orientation, Report,
    ReportOutput, Row, Table,
};
use crate::text::{cat2, texts, title_case, title_cased};
use super::{tone_of, type_tone};
use vstd::prelude::*;

verus! {

/// Loads the trial balance of the whole ledger.
#[derive(Clone, Copy, Debug)]
pub struct TrialBalanceDataSource;

impl TrialBalanceDataSource {
    /// The key that the figures are kept under.
    pub fn key(&self) -> (r: &'static str)
        ensures
            r@ == "accounting_trial_balance"@,
    {
        "accounting_trial_balance"
    }
}

#[derive(Clone, Copy, Debug)]
pub struct TrialBalanceReport;

impl TrialBalanceReport {
    pub fn name(&self) -> (r: &'static str)
        ensures
            r@ == "trial-balance"@,
    {
        "trial-balance"
    }

    pub fn title(&self) -> (r: &'static str)
        ensures
            r@ == "Trial Balance"@,
    {
        "Trial Balance"
    }

    pub fn group(&self) -> (r: &'static str)
        ensures
            r@ == "Accounting"@,
    {
        "Accounting"
    }

    pub fn outputs(&self) -> (r: Vec<ReportOutput>)
        ensures
            r@ == seq![ReportOutput::Pdf, ReportOutput::Excel, ReportOutput::Table],
    {
        vec![ReportOutput::Pdf, ReportOutput::Excel, ReportOutput::Table]
    }

    /// What a reader must be granted.
    pub fn permission(&self) -> (r: Option<&'static str>)
        ensures
            r == Some(permissions::REPORTS_VIEW),
    {
        Some(permissions::REPORTS_VIEW)
    }
}

/// The columns.
pub open spec fn columns() -> Seq<Head> {
    seq![
        ("Code"@, ColumnKind::Text),
        ("Account"@, ColumnKind::Text),
        ("Type"@, ColumnKind::Center),
        ("Debit"@, ColumnKind::Number),
        ("Credit"@, ColumnKind::Number),
    ]
}

fn make_columns() -> (r: Vec<Column>)
    ensures
        heads(r@) == columns(),
{
    let list = vec![
        Column::new("Code"),
        Column::new("Account"),
        Column::center("Type"),
        Column::number("Debit"),
        Column::number("Credit"),
    ];
    assert(heads(list@) =~= columns());
    list
}

/// The row of an account.
pub open spec fn cells(row: TrialBalanceRow) -> Seq<Seq<char>> {
    seq![
        row.code@,
        row.name@,
        title_cased(type_text(row.account_type)),
        money_text(row.debit@),
        money_text(row.credit@),
    ]
}

fn make_cells(row: &TrialBalanceRow) -> (r: Vec<String>)
    ensures
        texts(r@) == cells(*row),
{
    let list = vec![
        row.code.clone(),
        row.name.clone(),
        title_case(row.account_type.as_str()),
        money(row.debit),
        money(row.credit),
    ];
    assert(texts(list@) =~= cells(*row));
    list
}

/// The row of an account, in the colour of its type.
pub open spec fn line_of(row: TrialBalanceRow) -> Line {
    toned(cells(row), type_tone(row.account_type), false)
}

/// The row of totals.
pub open spec fn totals(tb: TrialBalance) -> Seq<Seq<char>> {
    seq![
        ""@,
        ""@,
        "Total"@,
        money_text(tb.total_debit@),
        money_text(tb.total_credit@),
    ]
}

fn make_totals(tb: &TrialBalance) -> (r: Vec<String>)
    ensures
        texts(r@) == totals(*tb),
{
    let list = vec![
        "".to_owned(),
        "".to_owned(),
        "Total".to_owned(),
        money(tb.total_debit),
        money(tb.total_credit),
    ];
    assert(texts(list@) =~= totals(*tb));
    list
}

/// Under the title: the day that the balances are of.
pub open spec fn as_of_text(as_of: Option<Day>) -> Seq<char> {
    match as_of {
        Some(d) => "As of "@ + iso_text(d),
        None => "All posted entries"@,
    }
}

fn show_as_of(as_of: Option<Date>) -> (r: String)
    ensures
        r@ == as_of_text(opt_day(as_of)),
{
    match as_of {
        Some(d) => {
            let day = d.iso();
            cat2("As of ", day.as_str())
        },
        None => "All posted entries".to_owned(),
    }
}

/// The table.
pub open spec fn grid(tb: TrialBalance) -> Grid {
    Grid {
        title: None,
        heads: columns(),
        lines: Seq::new(tb.rows@.len(), |k: int| line_of(tb.rows@[k])),
        totals: Some(totals(tb)),
    }
}

fn make_table(tb: &TrialBalance) -> (r: Table)
    ensures
        r@ == grid(*tb),
{
    let mut table = Table::new(make_columns());
    let mut i: usize = 0;
    while i < tb.rows.len()
        invariant
            i <= tb.rows.len(),
            table@.title is None,
            table@.heads == columns(),
            table@.lines == Seq::new(i as nat, |k: int| line_of(tb.rows@[k])),
            table@.totals is None,
        decreases tb.rows.len() - i,
    {
        let ghost held = table@.lines;
        table.add(Row::toned(make_cells(&tb.rows[i]), tone_of(tb.rows[i].account_type), false));
        assert(table@.lines =~= Seq::new((i + 1) as nat, |k: int| line_of(tb.rows@[k])));
        i = i + 1;
    }
    table.set_totals(make_totals(tb));
    assert(table@.lines =~= grid(*tb).lines);
    table
}

impl TrialBalanceReport {
    /// Lay the figures out.
    pub fn build(&self, tb: &TrialBalance) -> (r: Report)
        ensures
            is_table_report(
                r,
                "Trial Balance"@,
                as_of_text(opt_day(tb.as_of)),
                Orientation::Portrait,
                grid(*tb),
            ),
    {
        let subtitle = show_as_of(tb.as_of);
        Report::of_table("Trial Balance", subtitle, Orientation::Portrait, make_table(tb))
    }
}

} // verus!
