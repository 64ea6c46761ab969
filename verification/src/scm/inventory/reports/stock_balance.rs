//! Stock Balance: every item and warehouse with stock or value.

use crate::decimal::{Decimal, Num};
use crate::error::{in_range, refusal, Error, Refusal};
use crate::figures::{money, money_text, qty, qty_text};
use crate::report::{
    heads, is_table_report, plain, Column, ColumnKind, Grid, Head, Orientation, Report,
    ReportOutput, Row, Table,
};
use crate::scm::inventory::levels::LevelView;
use crate::scm::inventory::permissions;
use crate::sums::{lemma_total_none, total, total_to};
use crate::text::texts;
use crate::search::{kept, kept_to};
use crate::sort::backwards;
use vstd::prelude::*;

verus! {

/// Loads every position with stock or value.
#[derive(Clone, Copy, Debug)]
pub struct StockBalanceDataSource;

impl StockBalanceDataSource {
    /// The key that the figures are kept under.
    pub fn key(&self) -> (r: &'static str)
        ensures
            r@ == "scm_stock_balance"@,
    {
        "scm_stock_balance"
    }

    /// Of all positions those with stock or value.
    pub fn load(&self, levels: Vec<LevelView>) -> (r: Vec<LevelView>)
        ensures
            r@ == kept(levels@, holds_something()),
    {
        let ghost all = levels@;
        let ghost p = holds_something();
        let mut rest = backwards(levels);
        let mut out: Vec<LevelView> = Vec::new();
        let ghost mut seen: nat = 0;
        while rest.len() > 0
            invariant
                p == holds_something(),
                seen + rest@.len() == all.len(),
                forall|i: int|
                    0 <= i < rest@.len() ==> #[trigger] rest@[i] == all[all.len() - 1 - i],
                out@ == kept_to(all, p, seen),
            decreases rest.len(),
        {
            if let Some(l) = rest.pop() {
                assert(l == all[seen as int]);
                if !l.on_hand.is_zero() || !l.value.is_zero() {
                    out.push(l);
                }
                proof {
                    seen = seen + 1;
                }
            }
        }
        out
    }
}

/// Whether a position has stock or value.
pub open spec fn holds_something() -> spec_fn(LevelView) -> bool {
    |l: LevelView| l.on_hand@.0 != 0 || l.value@.0 != 0
}

#[derive(Clone, Copy, Debug)]
pub struct StockBalanceReport;

impl StockBalanceReport {
    pub fn name(&self) -> (r: &'static str)
        ensures
            r@ == "stock-balance"@,
    {
        "stock-balance"
    }

    pub fn title(&self) -> (r: &'static str)
        ensures
            r@ == "Stock Balance"@,
    {
        "Stock Balance"
    }

    pub fn group(&self) -> (r: &'static str)
        ensures
            r@ == "Inventory"@,
    {
        "Inventory"
    }

    pub fn outputs(&self) -> (r: Vec<ReportOutput>)
        ensures
            r@ == seq![ReportOutput::Pdf, ReportOutput::Excel, ReportOutput::Table],
    {
        vec![ReportOutput::Pdf, ReportOutput::Excel, ReportOutput::Table]
    }

    /// What a reader must be granted.
    pub fn permission(&self) -> (r: Option<&'static str>)
        ensures
            r == Some(permissions::REPORTS_VIEW),
    {
        Some(permissions::REPORTS_VIEW)
    }
}

/// The columns.
pub open spec fn columns() -> Seq<Head> {
    seq![
        ("SKU"@, ColumnKind::Text),
        ("Item"@, ColumnKind::Text),
        ("Warehouse"@, ColumnKind::Text),
        ("On hand"@, ColumnKind::Number),
        ("On order"@, ColumnKind::Number),
        ("Avg cost"@, ColumnKind::Number),
        ("Value"@, ColumnKind::Number),
    ]
}

fn make_columns() -> (r: Vec<Column>)
    ensures
        heads(r@) == columns(),
{
    let list = vec![
        Column::new("SKU"),
        Column::new("Item"),
        Column::new("Warehouse"),
        Column::number("On hand"),
        Column::number("On order"),
        Column::number("Avg cost"),
        Column::number("Value"),
    ];
    assert(heads(list@) =~= columns());
    list
}

/// The row of a position.
pub open spec fn cells(row: LevelView) -> Seq<Seq<char>> {
    seq![
        row.sku@,
        row.item_name@,
        row.warehouse_code@,
        qty_text(row.on_hand@),
        qty_text(row.on_order@),
        money_text(row.avg_cost@),
        money_text(row.value@),
    ]
}

fn make_cells(row: &LevelView) -> (r: Vec<String>)
    ensures
        texts(r@) == cells(*row),
{
    let list = vec![
        row.sku.clone(),
        row.item_name.clone(),
        row.warehouse_code.clone(),
        qty(row.on_hand),
        qty(row.on_order),
        money(row.avg_cost),
        money(row.value),
    ];
    assert(texts(list@) =~= cells(*row));
    list
}

/// What the positions are worth.
pub open spec fn values(levels: Seq<LevelView>) -> Seq<Num> {
    levels.map_values(|l: LevelView| l.value@)
}

/// The row of totals.
pub open spec fn totals(value: Num) -> Seq<Seq<char>> {
    seq![""@, ""@, ""@, ""@, ""@, "Total"@, money_text(value)]
}

/// The table of positions that are worth `value` together.
pub open spec fn grid(levels: Seq<LevelView>, value: Num) -> Grid {
    Grid {
        title: None,
        heads: columns(),
        lines: Seq::new(levels.len(), |k: int| plain(cells(levels[k]))),
        totals: Some(totals(value)),
    }
}

impl StockBalanceReport {
    /// Lay the figures out; refused where what they are worth together leaves
    /// the range.
    pub fn build(&self, levels: &Vec<LevelView>) -> (r: Result<Report, Error>)
        ensures
            match total(values(levels@)) {
                None => refusal(r) == Some(Refusal::Overflow),
                Some(value) => r is Ok && is_table_report(
                    r->Ok_0,
                    "Stock Balance"@,
                    "Current position, all warehouses"@,
                    Orientation::Portrait,
                    grid(levels@, value),
                ),
            },
    {
        let mut table = Table::new(make_columns());
        let mut value = Decimal::zero();
        let mut i: usize = 0;
        while i < levels.len()
            invariant
                i <= levels.len(),
                total_to(values(levels@), i as nat) == Some(value@),
                table@.title is None,
                table@.heads == columns(),
                table@.lines == Seq::new(i as nat, |k: int| plain(cells(levels@[k]))),
                table@.totals is None,
            decreases levels.len() - i,
        {
            proof {
                assert(values(levels@)[i as int] == levels@[i as int].value@);
                if total_to(values(levels@), (i + 1) as nat) is None {
                    lemma_total_none(values(levels@), (i + 1) as nat, levels@.len());
                }
            }
            value = in_range(value.checked_add(levels[i].value))?;
            table.add(Row::new(make_cells(&levels[i])));
            assert(table@.lines =~= Seq::new((i + 1) as nat, |k: int| plain(cells(levels@[k]))));
            i = i + 1;
        }
        let foot = vec![
            "".to_owned(),
            "".to_owned(),
            "".to_owned(),
            "".to_owned(),
            "".to_owned(),
            "Total".to_owned(),
            money(value),
        ];
        assert(texts(foot@) =~= totals(value@));
        table.set_totals(foot);
        assert(table@.lines =~= grid(levels@, value@).lines);
        Ok(
            Report::of_table(
                "Stock Balance",
                "Current position, all warehouses".to_owned(),
                Orientation::Portrait,
                table,
            ),
        )
    }
}

} // verus!
