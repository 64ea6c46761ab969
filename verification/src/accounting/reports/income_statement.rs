//! Income Statement: revenue against expenses over a window.

use crate::accounting::account::AccountType;
use crate::accounting::ledger::IncomeStatement;
use crate::accounting::permissions;
use crate::date::{iso_text, opt_day, Date, Day};
use crate::figures::{money, money_text};
use crate::report::{is_table_report, Grid, Orientation, Report, ReportOutput, Table};
use crate::text::{cat2, cat3};
use super::{new_statement, section_lines, section_rows, statement_columns, two, two_cells};
use vstd::prelude::*;

verus! {

/// Loads the income statement.
#[derive(Clone, Copy, Debug)]
pub struct IncomeStatementDataSource;

impl IncomeStatementDataSource {
    /// The key that the figures are kept under.
    pub fn key(&self) -> (r: &'static str)
        ensures
            r@ == "accounting_income_statement"@,
    {
        "accounting_income_statement"
    }
}

#[derive(Clone, Copy, Debug)]
pub struct IncomeStatementReport;

impl IncomeStatementReport {
    pub fn name(&self) -> (r: &'static str)
        ensures
            r@ == "income-statement"@,
    {
        "income-statement"
    }

    pub fn title(&self) -> (r: &'static str)
        ensures
            r@ == "Income Statement"@,
    {
        "Income Statement"
    }

    pub fn group(&self) -> (r: &'static str)
        ensures
            r@ == "Accounting"@,
    {
        "Accounting"
    }

    pub fn outputs(&self) -> (r: Vec<ReportOutput>)
        ensures
            r@ == seq![ReportOutput::Pdf, ReportOutput::Excel, ReportOutput::Table],
    {
        vec![ReportOutput::Pdf, ReportOutput::Excel, ReportOutput::Table]
    }

    /// What a reader must be granted.
    pub fn permission(&self) -> (r: Option<&'static str>)
        ensures
            r == Some(permissions::REPORTS_VIEW),
    {
        Some(permissions::REPORTS_VIEW)
    }
}

/// The table.
pub open spec fn grid(s: IncomeStatement) -> Grid {
    Grid {
        title: None,
        heads: statement_columns(),
        lines: section_lines(s.revenue, AccountType::Revenue) + section_lines(
            s.expenses,
            AccountType::Expense,
        ),
        totals: Some(two("Net income"@, money_text(s.net_income@))),
    }
}

fn make_table(s: &IncomeStatement) -> (r: Table)
    ensures
        r@ == grid(*s),
{
    let mut table = new_statement();
    section_rows(&mut table, &s.revenue, AccountType::Revenue);
    section_rows(&mut table, &s.expenses, AccountType::Expense);
    table.set_totals(two_cells("Net income".to_owned(), money(s.net_income)));
    assert(table@.lines =~= grid(*s).lines);
    table
}

/// Under the title: the days that the statement covers.
pub open spec fn span_text(from: Option<Day>, to: Option<Day>) -> Seq<char> {
    match (from, to) {
        (Some(f), Some(t)) => iso_text(f) + " to "@ + iso_text(t),
        (None, Some(t)) => "Through "@ + iso_text(t),
        (Some(f), None) => "From "@ + iso_text(f),
        (None, None) => "All posted entries"@,
    }
}

fn show_span(from: Option<Date>, to: Option<Date>) -> (r: String)
    ensures
        r@ == span_text(opt_day(from), opt_day(to)),
{
    match (from, to) {
        (Some(f), Some(t)) => {
            let a = f.iso();
            let b = t.iso();
            cat3(a.as_str(), " to ", b.as_str())
        },
        (None, Some(t)) => {
            let b = t.iso();
            cat2("Through ", b.as_str())
        },
        (Some(f), None) => {
            let a = f.iso();
            cat2("From ", a.as_str())
        },
        (None, None) => "All posted entries".to_owned(),
    }
}

impl IncomeStatementReport {
    /// Lay the figures out.
    pub fn build(&self, s: &IncomeStatement) -> (r: Report)
        ensures
            is_table_report(
                r,
                "Income Statement"@,
                span_text(opt_day(s.from), opt_day(s.to)),
                Orientation::Portrait,
                grid(*s),
            ),
    {
        let subtitle = show_span(s.from, s.to);
        Report::of_table("Income Statement", subtitle, Orientation::Portrait, make_table(s))
    }
}

} // verus!
