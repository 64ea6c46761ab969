//! Reorder Advice: positions at or below their reorder level.

use crate::decimal::opt;
use crate::figures::{opt_qty, opt_qty_text, qty, qty_text};
use crate::report::{
    heads, is_table_report, plain, Column, ColumnKind, Grid, Head, Orientation, Report,
    ReportOutput, Row, Table,
};
use crate::scm::inventory::levels::{LevelView, LevelsFilter};
use crate::scm::inventory::permissions;
use crate::text::texts;
use vstd::prelude::*;

verus! {

/// Loads the positions at or below their reorder level.
#[derive(Clone, Copy, Debug)]
pub struct ReorderDataSource;

impl ReorderDataSource {
    /// The key that the figures are kept under.
    pub fn key(&self) -> (r: &'static str)
        ensures
            r@ == "scm_reorder"@,
    {
        "scm_reorder"
    }
}

#[derive(Clone, Copy, Debug)]
pub struct ReorderReport;

impl ReorderReport {
    pub fn name(&self) -> (r: &'static str)
        ensures
            r@ == "reorder"@,
    {
        "reorder"
    }

    pub fn title(&self) -> (r: &'static str)
        ensures
            r@ == "Reorder Advice"@,
    {
        "Reorder Advice"
    }

    pub fn group(&self) -> (r: &'static str)
        ensures
            r@ == "Inventory"@,
    {
        "Inventory"
    }

    pub fn outputs(&self) -> (r: Vec<ReportOutput>)
        ensures
            r@ == seq![ReportOutput::Pdf, ReportOutput::Excel, ReportOutput::Table],
    {
        vec![ReportOutput::Pdf, ReportOutput::Excel, ReportOutput::Table]
    }

    /// What a reader must be granted.
    pub fn permission(&self) -> (r: Option<&'static str>)
        ensures
            r == Some(permissions::REPORTS_VIEW),
    {
        Some(permissions::REPORTS_VIEW)
    }
}

impl ReorderDataSource {
    /// The positions that are asked for.
    pub fn filter(&self) -> (r: LevelsFilter)
        ensures
            r == (LevelsFilter { warehouse_id: None, item_id: None, below_reorder: true }),
    {
        LevelsFilter { warehouse_id: None, item_id: None, below_reorder: true }
    }
}

/// The columns.
pub open spec fn columns() -> Seq<Head> {
    seq![
        ("SKU"@, ColumnKind::Text),
        ("Item"@, ColumnKind::Text),
        ("Warehouse"@, ColumnKind::Text),
        ("On hand"@, ColumnKind::Number),
        ("On order"@, ColumnKind::Number),
        ("Reorder level"@, ColumnKind::Number),
        ("Reorder qty"@, ColumnKind::Number),
    ]
}

fn make_columns() -> (r: Vec<Column>)
    ensures
        heads(r@) == columns(),
{
    let list = vec![
        Column::new("SKU"),
        Column::new("Item"),
        Column::new("Warehouse"),
        Column::number("On hand"),
        Column::number("On order"),
        Column::number("Reorder level"),
        Column::number("Reorder qty"),
    ];
    assert(heads(list@) =~= columns());
    list
}

/// The row of a position.
pub open spec fn cells(row: LevelView) -> Seq<Seq<char>> {
    seq![
        row.sku@,
        row.item_name@,
        row.warehouse_code@,
        qty_text(row.on_hand@),
        qty_text(row.on_order@),
        opt_qty_text(opt(row.reorder_level)),
        opt_qty_text(opt(row.reorder_qty)),
    ]
}

fn make_cells(row: &LevelView) -> (r: Vec<String>)
    ensures
        texts(r@) == cells(*row),
{
    let list = vec![
        row.sku.clone(),
        row.item_name.clone(),
        row.warehouse_code.clone(),
        qty(row.on_hand),
        qty(row.on_order),
        opt_qty(row.reorder_level),
        opt_qty(row.reorder_qty),
    ];
    assert(texts(list@) =~= cells(*row));
    list
}

/// The table.
pub open spec fn grid(levels: Vec<LevelView>) -> Grid {
    Grid {
        title: None,
        heads: columns(),
        lines: Seq::new(levels@.len(), |k: int| plain(cells(levels@[k]))),
        totals: None,
    }
}

fn make_table(levels: &Vec<LevelView>) -> (r: Table)
    ensures
        r@ == grid(*levels),
{
    let mut table = Table::new(make_columns());
    let mut i: usize = 0;
    while i < levels.len()
        invariant
            i <= levels.len(),
            table@.title is None,
            table@.heads == columns(),
            table@.lines == Seq::new(i as nat, |k: int| plain(cells(levels@[k]))),
            table@.totals is None,
        decreases levels.len() - i,
    {
        let ghost held = table@.lines;
        table.add(Row::new(make_cells(&levels[i])));
        assert(table@.lines =~= Seq::new((i + 1) as nat, |k: int| plain(cells(levels@[k]))));
        i = i + 1;
    }
    assert(table@.lines =~= grid(*levels).lines);
    table
}

impl ReorderReport {
    /// Lay the figures out.
    pub fn build(&self, levels: &Vec<LevelView>) -> (r: Report)
        ensures
            is_table_report(
                r,
                "Reorder Advice"@,
                "Positions at or below their reorder level"@,
                Orientation::Portrait,
                grid(*levels),
            ),
    {
        let subtitle = "Positions at or below their reorder level".to_owned();
        Report::of_table("Reorder Advice", subtitle, Orientation::Portrait, make_table(levels))
    }
}

} // verus!
