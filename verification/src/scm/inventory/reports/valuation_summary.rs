//! Stock Valuation: what stock is worth at the moving average, by warehouse.

use crate::figures::{money, money_text};
use crate::report::{
    heads, is_table_report, plain, Column, ColumnKind, Grid, Head, Orientation, Report,
    ReportOutput, Row, Table,
};
use crate::scm::inventory::levels::{ValuationSummary, WarehouseValuation};
use crate::scm::inventory::permissions;
use crate::text::{digits, show_nat, texts};
use vstd::prelude::*;

verus! {

/// Loads what stock is worth, by warehouse.
#[derive(Clone, Copy, Debug)]
pub struct ValuationSummaryDataSource;

impl ValuationSummaryDataSource {
    /// The key that the figures are kept under.
    pub fn key(&self) -> (r: &'static str)
        ensures
            r@ == "scm_valuation_summary"@,
    {
        "scm_valuation_summary"
    }
}

#[derive(Clone, Copy, Debug)]
pub struct ValuationSummaryReport;

impl ValuationSummaryReport {
    pub fn name(&self) -> (r: &'static str)
        ensures
            r@ == "valuation-summary"@,
    {
        "valuation-summary"
    }

    pub fn title(&self) -> (r: &'static str)
        ensures
            r@ == "Stock Valuation"@,
    {
        "Stock Valuation"
    }

    pub fn group(&self) -> (r: &'static str)
        ensures
            r@ == "Inventory"@,
    {
        "Inventory"
    }

    pub fn outputs(&self) -> (r: Vec<ReportOutput>)
        ensures
            r@ == seq![ReportOutput::Pdf, ReportOutput::Excel, ReportOutput::Table],
    {
        vec![ReportOutput::Pdf, ReportOutput::Excel, ReportOutput::Table]
    }

    /// What a reader must be granted.
    pub fn permission(&self) -> (r: Option<&'static str>)
        ensures
            r == Some(permissions::REPORTS_VIEW),
    {
        Some(permissions::REPORTS_VIEW)
    }
}

/// The columns.
pub open spec fn columns() -> Seq<Head> {
    seq![
        ("Warehouse"@, ColumnKind::Text),
        ("Name"@, ColumnKind::Text),
        ("Items"@, ColumnKind::Number),
        ("Value"@, ColumnKind::Number),
    ]
}

fn make_columns() -> (r: Vec<Column>)
    ensures
        heads(r@) == columns(),
{
    let list = vec![
        Column::new("Warehouse"),
        Column::new("Name"),
        Column::number("Items"),
        Column::number("Value"),
    ];
    assert(heads(list@) =~= columns());
    list
}

/// The row of a warehouse.
pub open spec fn cells(row: WarehouseValuation) -> Seq<Seq<char>> {
    seq![
        row.warehouse_code@,
        row.warehouse_name@,
        digits(row.items as nat),
        money_text(row.total_value@),
    ]
}

fn make_cells(row: &WarehouseValuation) -> (r: Vec<String>)
    ensures
        texts(r@) == cells(*row),
{
    let list = vec![
        row.warehouse_code.clone(),
        row.warehouse_name.clone(),
        show_nat(row.items),
        money(row.total_value),
    ];
    assert(texts(list@) =~= cells(*row));
    list
}

/// The row of totals.
pub open spec fn totals(summary: ValuationSummary) -> Seq<Seq<char>> {
    seq![
        ""@,
        ""@,
        "Total"@,
        money_text(summary.total_value@),
    ]
}

fn make_totals(summary: &ValuationSummary) -> (r: Vec<String>)
    ensures
        texts(r@) == totals(*summary),
{
    let list = vec![
        "".to_owned(),
        "".to_owned(),
        "Total".to_owned(),
        money(summary.total_value),
    ];
    assert(texts(list@) =~= totals(*summary));
    list
}

/// The table.
pub open spec fn grid(summary: ValuationSummary) -> Grid {
    Grid {
        title: None,
        heads: columns(),
        lines: Seq::new(summary.warehouses@.len(), |k: int| plain(cells(summary.warehouses@[k]))),
        totals: Some(totals(summary)),
    }
}

fn make_table(summary: &ValuationSummary) -> (r: Table)
    ensures
        r@ == grid(*summary),
{
    let mut table = Table::new(make_columns());
    let mut i: usize = 0;
    while i < summary.warehouses.len()
        invariant
            i <= summary.warehouses.len(),
            table@.title is None,
            table@.heads == columns(),
            table@.lines == Seq::new(i as nat, |k: int| plain(cells(summary.warehouses@[k]))),
            table@.totals is None,
        decreases summary.warehouses.len() - i,
    {
        let ghost held = table@.lines;
        table.add(Row::new(make_cells(&summary.warehouses[i])));
        assert(table@.lines =~= Seq::new((i + 1) as nat, |k: int| plain(cells(summary.warehouses@[k]))));
        i = i + 1;
    }
    table.set_totals(make_totals(summary));
    assert(table@.lines =~= grid(*summary).lines);
    table
}

impl ValuationSummaryReport {
    /// Lay the figures out.
    pub fn build(&self, summary: &ValuationSummary) -> (r: Report)
        ensures
            is_table_report(
                r,
                "Stock Valuation"@,
                "Moving-average value by warehouse"@,
                Orientation::Portrait,
                grid(*summary),
            ),
    {
        let subtitle = "Moving-average value by warehouse".to_owned();
        Report::of_table("Stock Valuation", subtitle, Orientation::Portrait, make_table(summary))
    }
}

} // verus!
