//! Stock Ledger: the most recent movements across every item and warehouse.

use crate::date::iso_text;
use crate::figures::{money, money_text, qty, qty_text};
use crate::report::{
    heads, is_table_report, plain, Column, ColumnKind, Grid, Head, Orientation, Report,
    ReportOutput, Row, Table,
};
use crate::scm::inventory::levels::{are_row_views, newest, LedgerRowView, StockQueries, StoredRow};
use crate::scm::inventory::moves::MoveDoc;
use crate::scm::inventory::permissions;
use crate::text::{number_or_blank, opt_text, show_or_blank, texts};
use vstd::prelude::*;

verus! {

/// How many of the most recent rows the report shows at most.
pub const LEDGER_REPORT_ROWS: u64 = 500;

/// Loads the most recent rows of the stock ledger.
#[derive(Clone, Copy, Debug)]
pub struct StockLedgerDataSource;

impl StockLedgerDataSource {
    /// The key that the figures are kept under.
    pub fn key(&self) -> (r: &'static str)
        ensures
            r@ == "scm_stock_ledger"@,
    {
        "scm_stock_ledger"
    }
}

#[derive(Clone, Copy, Debug)]
pub struct StockLedgerReport;

impl StockLedgerReport {
    pub fn name(&self) -> (r: &'static str)
        ensures
            r@ == "stock-ledger"@,
    {
        "stock-ledger"
    }

    pub fn title(&self) -> (r: &'static str)
        ensures
            r@ == "Stock Ledger"@,
    {
        "Stock Ledger"
    }

    pub fn group(&self) -> (r: &'static str)
        ensures
            r@ == "Inventory"@,
    {
        "Inventory"
    }

    pub fn outputs(&self) -> (r: Vec<ReportOutput>)
        ensures
            r@ == seq![ReportOutput::Pdf, ReportOutput::Excel, ReportOutput::Table],
    {
        vec![ReportOutput::Pdf, ReportOutput::Excel, ReportOutput::Table]
    }

    /// What a reader must be granted.
    pub fn permission(&self) -> (r: Option<&'static str>)
        ensures
            r == Some(permissions::REPORTS_VIEW),
    {
        Some(permissions::REPORTS_VIEW)
    }
}

impl StockLedgerDataSource {
    /// The most recent rows across every item and warehouse, in posting order.
    pub fn load(&self, stock: &StockQueries, rows: &Vec<StoredRow>, moves: &Vec<MoveDoc>) -> (r: Vec<
        LedgerRowView,
    >)
        ensures
            are_row_views(
                r@,
                newest(rows@, LEDGER_REPORT_ROWS as int),
                stock.items@,
                stock.warehouses@,
                moves@,
            ),
    {
        stock.latest(rows, moves, LEDGER_REPORT_ROWS)
    }
}

/// The columns.
pub open spec fn columns() -> Seq<Head> {
    seq![
        ("Date"@, ColumnKind::Text),
        ("Document"@, ColumnKind::Text),
        ("SKU"@, ColumnKind::Text),
        ("Warehouse"@, ColumnKind::Text),
        ("Qty"@, ColumnKind::Number),
        ("Balance"@, ColumnKind::Number),
        ("Unit cost"@, ColumnKind::Number),
        ("Value"@, ColumnKind::Number),
    ]
}

fn make_columns() -> (r: Vec<Column>)
    ensures
        heads(r@) == columns(),
{
    let list = vec![
        Column::new("Date"),
        Column::new("Document"),
        Column::new("SKU"),
        Column::new("Warehouse"),
        Column::number("Qty"),
        Column::number("Balance"),
        Column::number("Unit cost"),
        Column::number("Value"),
    ];
    assert(heads(list@) =~= columns());
    list
}

/// The row of a movement.
pub open spec fn cells(row: LedgerRowView) -> Seq<Seq<char>> {
    seq![
        iso_text(row.entry_date@),
        number_or_blank(opt_text(row.number)),
        row.sku@,
        row.warehouse_code@,
        qty_text(row.qty_delta@),
        qty_text(row.qty_after@),
        money_text(row.unit_cost@),
        money_text(row.value_delta@),
    ]
}

fn make_cells(row: &LedgerRowView) -> (r: Vec<String>)
    ensures
        texts(r@) == cells(*row),
{
    let list = vec![
        row.entry_date.iso(),
        show_or_blank(&row.number),
        row.sku.clone(),
        row.warehouse_code.clone(),
        qty(row.qty_delta),
        qty(row.qty_after),
        money(row.unit_cost),
        money(row.value_delta),
    ];
    assert(texts(list@) =~= cells(*row));
    list
}

/// The table.
pub open spec fn grid(rows: Vec<LedgerRowView>) -> Grid {
    Grid {
        title: None,
        heads: columns(),
        lines: Seq::new(rows@.len(), |k: int| plain(cells(rows@[k]))),
        totals: None,
    }
}

fn make_table(rows: &Vec<LedgerRowView>) -> (r: Table)
    ensures
        r@ == grid(*rows),
{
    let mut table = Table::new(make_columns());
    let mut i: usize = 0;
    while i < rows.len()
        invariant
            i <= rows.len(),
            table@.title is None,
            table@.heads == columns(),
            table@.lines == Seq::new(i as nat, |k: int| plain(cells(rows@[k]))),
            table@.totals is None,
        decreases rows.len() - i,
    {
        let ghost held = table@.lines;
        table.add(Row::new(make_cells(&rows[i])));
        assert(table@.lines =~= Seq::new((i + 1) as nat, |k: int| plain(cells(rows@[k]))));
        i = i + 1;
    }
    assert(table@.lines =~= grid(*rows).lines);
    table
}

impl StockLedgerReport {
    /// Lay the figures out.
    pub fn build(&self, rows: &Vec<LedgerRowView>) -> (r: Report)
        ensures
            is_table_report(
                r,
                "Stock Ledger"@,
                "Most recent 500 entries at most, in posting order"@,
                Orientation::Portrait,
                grid(*rows),
            ),
    {
        let subtitle = "Most recent 500 entries at most, in posting order".to_owned();
        Report::of_table("Stock Ledger", subtitle, Orientation::Portrait, make_table(rows))
    }
}

} // verus!
