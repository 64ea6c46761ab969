//! Item Sales: what sold at the tills, what took most first.

use crate::date::opt_day;
use crate::decimal::{minus, Decimal, Num};
use crate::error::{in_range, refusal, Error, Refusal};
use crate::figures::{money, money_text, qty, qty_text, window, window_text};
use crate::report::{
    heads, is_table_report, plain, Column, ColumnKind, Grid, Head, Orientation, Report,
    ReportOutput, Row, Table,
};
use crate::scm::pos::permissions;
use crate::text::{cat2, texts};
use super::queries::items::{ItemSalesRow, ItemSalesView};
use vstd::prelude::*;

verus! {

/// Loads what sold, by item.
#[derive(Clone, Copy, Debug)]
pub struct ItemSalesDataSource;

impl ItemSalesDataSource {
    /// The key that the figures are kept under.
    pub fn key(&self) -> (r: &'static str)
        ensures
            r@ == "pos_item_sales"@,
    {
        "pos_item_sales"
    }
}

#[derive(Clone, Copy, Debug)]
pub struct ItemSalesReport;

impl ItemSalesReport {
    pub fn name(&self) -> (r: &'static str)
        ensures
            r@ == "pos-item-sales"@,
    {
        "pos-item-sales"
    }

    pub fn title(&self) -> (r: &'static str)
        ensures
            r@ == "POS Item Sales"@,
    {
        "POS Item Sales"
    }

    pub fn group(&self) -> (r: &'static str)
        ensures
            r@ == "Point of Sale"@,
    {
        "Point of Sale"
    }

    pub fn outputs(&self) -> (r: Vec<ReportOutput>)
        ensures
            r@ == seq![ReportOutput::Pdf, ReportOutput::Excel, ReportOutput::Table],
    {
        vec![ReportOutput::Pdf, ReportOutput::Excel, ReportOutput::Table]
    }

    /// What a reader must be granted.
    pub fn permission(&self) -> (r: Option<&'static str>)
        ensures
            r == Some(permissions::REPORTS_VIEW),
    {
        Some(permissions::REPORTS_VIEW)
    }
}

/// The columns.
pub open spec fn columns() -> Seq<Head> {
    seq![
        ("SKU"@, ColumnKind::Text),
        ("Item"@, ColumnKind::Wide),
        ("Sold"@, ColumnKind::Number),
        ("Refunded"@, ColumnKind::Number),
        ("Gross"@, ColumnKind::Number),
        ("VAT"@, ColumnKind::Number),
        ("Ex VAT"@, ColumnKind::Number),
    ]
}

fn make_columns() -> (r: Vec<Column>)
    ensures
        heads(r@) == columns(),
{
    let list = vec![
        Column::new("SKU"),
        Column::wide("Item"),
        Column::number("Sold"),
        Column::number("Refunded"),
        Column::number("Gross"),
        Column::number("VAT"),
        Column::number("Ex VAT"),
    ];
    assert(heads(list@) =~= columns());
    list
}

/// The row of an item.
pub open spec fn cells(row: ItemSalesRow) -> Seq<Seq<char>> {
    seq![
        row.sku@,
        row.name@,
        qty_text(row.qty_sold@),
        qty_text(row.qty_refunded@),
        money_text(row.gross@),
        money_text(row.tax@),
        money_text(row.net@),
    ]
}

fn make_cells(row: &ItemSalesRow) -> (r: Vec<String>)
    ensures
        texts(r@) == cells(*row),
{
    let list = vec![
        row.sku.clone(),
        row.name.clone(),
        qty(row.qty_sold),
        qty(row.qty_refunded),
        money(row.gross),
        money(row.tax),
        money(row.net),
    ];
    assert(texts(list@) =~= cells(*row));
    list
}

/// The row of totals; `net` is what is left without the tax.
pub open spec fn totals(view: ItemSalesView, net: Num) -> Seq<Seq<char>> {
    seq![""@, "Total"@, ""@, ""@, money_text(view.gross@), money_text(view.tax@), money_text(net)]
}

/// The table; `net` is what is left without the tax.
pub open spec fn grid(view: ItemSalesView, net: Num) -> Grid {
    Grid {
        title: None,
        heads: columns(),
        lines: Seq::new(view.rows@.len(), |k: int| plain(cells(view.rows@[k]))),
        totals: Some(totals(view, net)),
    }
}

fn make_table(view: &ItemSalesView, net: Decimal) -> (r: Table)
    ensures
        r@ == grid(*view, net@),
{
    let mut table = Table::new(make_columns());
    let mut i: usize = 0;
    while i < view.rows.len()
        invariant
            i <= view.rows.len(),
            table@.title is None,
            table@.heads == columns(),
            table@.lines == Seq::new(i as nat, |k: int| plain(cells(view.rows@[k]))),
            table@.totals is None,
        decreases view.rows.len() - i,
    {
        table.add(Row::new(make_cells(&view.rows[i])));
        assert(table@.lines =~= Seq::new((i + 1) as nat, |k: int| plain(cells(view.rows@[k]))));
        i = i + 1;
    }
    let foot = vec![
        "".to_owned(),
        "Total".to_owned(),
        "".to_owned(),
        "".to_owned(),
        money(view.gross),
        money(view.tax),
        money(net),
    ];
    assert(texts(foot@) =~= totals(*view, net@));
    table.set_totals(foot);
    assert(table@.lines =~= grid(*view, net@).lines);
    table
}

impl ItemSalesReport {
    /// Lay the figures out; refused where what is left without the tax leaves
    /// the range.
    pub fn build(&self, view: &ItemSalesView) -> (r: Result<Report, Error>)
        ensures
            match minus(view.gross@, view.tax@) {
                None => refusal(r) == Some(Refusal::Overflow),
                Some(net) => r is Ok && is_table_report(
                    r->Ok_0,
                    "POS Item Sales"@,
                    "Till sales by item, net of refunds"@ + window_text(
                        opt_day(view.span.from),
                        opt_day(view.span.to),
                    ),
                    Orientation::Landscape,
                    grid(*view, net),
                ),
            },
    {
        let net = in_range(view.gross.checked_sub(view.tax))?;
        let clause = window(view.span.from, view.span.to);
        let subtitle = cat2("Till sales by item, net of refunds", clause.as_str());
        Ok(
            Report::of_table(
                "POS Item Sales",
                subtitle,
                Orientation::Landscape,
                make_table(view, net),
            ),
        )
    }
}

} // verus!
