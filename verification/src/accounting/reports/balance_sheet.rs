//! Balance Sheet: what the business owns against what it owes, as of a day.
//!
//! Current earnings stand below equity rather than inside it: they are the income
//! statement's net income, not a posted balance, and the sheet only foots once they
//! are counted.

use crate::accounting::account::AccountType;
use crate::accounting::ledger::BalanceSheet;
use crate::accounting::permissions;
use crate::date::{iso_text, opt_day, Day};
use crate::figures::{money, money_text};
use crate::report::{
    is_table_report, toned, Grid, Line, Orientation, Report, ReportOutput, Row, Table,
};
use crate::text::cat2;
use super::{
    new_statement, section_lines, section_rows, statement_columns, tone_of, two, two_cells,
    type_tone,
};
use vstd::prelude::*;

verus! {

/// Loads the balance sheet.
#[derive(Clone, Copy, Debug)]
pub struct BalanceSheetDataSource;

impl BalanceSheetDataSource {
    /// The key that the figures are kept under.
    pub fn key(&self) -> (r: &'static str)
        ensures
            r@ == "accounting_balance_sheet"@,
    {
        "accounting_balance_sheet"
    }
}

#[derive(Clone, Copy, Debug)]
pub struct BalanceSheetReport;

impl BalanceSheetReport {
    pub fn name(&self) -> (r: &'static str)
        ensures
            r@ == "balance-sheet"@,
    {
        "balance-sheet"
    }

    pub fn title(&self) -> (r: &'static str)
        ensures
            r@ == "Balance Sheet"@,
    {
        "Balance Sheet"
    }

    pub fn group(&self) -> (r: &'static str)
        ensures
            r@ == "Accounting"@,
    {
        "Accounting"
    }

    pub fn outputs(&self) -> (r: Vec<ReportOutput>)
        ensures
            r@ == seq![ReportOutput::Pdf, ReportOutput::Excel, ReportOutput::Table],
    {
        vec![ReportOutput::Pdf, ReportOutput::Excel, ReportOutput::Table]
    }

    /// What a reader must be granted.
    pub fn permission(&self) -> (r: Option<&'static str>)
        ensures
            r == Some(permissions::REPORTS_VIEW),
    {
        Some(permissions::REPORTS_VIEW)
    }
}

/// The earnings that are equity and not posted there yet: those of earlier
/// years, where there are any, and those of this one.
pub open spec fn earnings_lines(bs: BalanceSheet) -> Seq<Line> {
    let tone = type_tone(AccountType::Equity);
    let current = seq![
        toned(two("Current earnings"@, money_text(bs.current_earnings@)), tone, false),
    ];
    if bs.prior_earnings@.0 == 0 {
        current
    } else {
        seq![
            toned(
                two("Retained earnings (prior years)"@, money_text(bs.prior_earnings@)),
                tone,
                false,
            ),
        ] + current
    }
}

/// The table.
pub open spec fn grid(bs: BalanceSheet) -> Grid {
    Grid {
        title: None,
        heads: statement_columns(),
        lines: section_lines(bs.assets, AccountType::Asset) + section_lines(
            bs.liabilities,
            AccountType::Liability,
        ) + section_lines(bs.equity, AccountType::Equity) + earnings_lines(bs),
        totals: Some(
            two("Total liabilities & equity"@, money_text(bs.total_liabilities_and_equity@)),
        ),
    }
}

fn make_table(bs: &BalanceSheet) -> (r: Table)
    ensures
        r@ == grid(*bs),
{
    let mut table = new_statement();
    section_rows(&mut table, &bs.assets, AccountType::Asset);
    section_rows(&mut table, &bs.liabilities, AccountType::Liability);
    section_rows(&mut table, &bs.equity, AccountType::Equity);
    let tone = tone_of(AccountType::Equity);
    if !bs.prior_earnings.is_zero() {
        let cells = two_cells(
            "Retained earnings (prior years)".to_owned(),
            money(bs.prior_earnings),
        );
        table.add(Row::toned(cells, tone, false));
    }
    let cells = two_cells("Current earnings".to_owned(), money(bs.current_earnings));
    table.add(Row::toned(cells, tone, false));
    let totals = two_cells(
        "Total liabilities & equity".to_owned(),
        money(bs.total_liabilities_and_equity),
    );
    table.set_totals(totals);
    assert(table@.lines =~= grid(*bs).lines);
    table
}

/// Under the title: the day that the sheet is of.
pub open spec fn as_of_text(as_of: Option<Day>) -> Seq<char> {
    match as_of {
        Some(d) => "As of "@ + iso_text(d),
        None => "As of today"@,
    }
}

impl BalanceSheetReport {
    /// Lay the figures out.
    pub fn build(&self, bs: &BalanceSheet) -> (r: Report)
        ensures
            is_table_report(
                r,
                "Balance Sheet"@,
                as_of_text(opt_day(bs.as_of)),
                Orientation::Portrait,
                grid(*bs),
            ),
    {
        let subtitle = match bs.as_of {
            Some(d) => {
                let day = d.iso();
                cat2("As of ", day.as_str())
            },
            None => "As of today".to_owned(),
        };
        Report::of_table("Balance Sheet", subtitle, Orientation::Portrait, make_table(bs))
    }
}

} // verus!
