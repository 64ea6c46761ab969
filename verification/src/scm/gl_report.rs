//! The reconciliation of stock and ledger as a report.

use crate::decimal::{fixed_text, opt, Decimal, Num};
use crate::report::{
    heads, is_table_report, plain, Column, ColumnKind, Grid, Head, Orientation, Report,
    ReportFormat, ReportOutput, Row, Table,
};
use crate::scm::inventory::permissions;
use crate::scm::reconcile::GlReconciliationView;
use crate::text::{digits, show_nat, texts};
use vstd::prelude::*;

verus! {

/// Loads the reconciliation of stock and ledger.
#[derive(Clone, Copy, Debug)]
pub struct GlReconciliationDataSource;

impl GlReconciliationDataSource {
    /// The key that the figures are kept under.
    pub fn key(&self) -> (r: &'static str)
        ensures
            r@ == "scm_gl_reconciliation"@,
    {
        "scm_gl_reconciliation"
    }
}

#[derive(Clone, Copy, Debug)]
pub struct GlReconciliationReport;

impl GlReconciliationReport {
    pub fn name(&self) -> (r: &'static str)
        ensures
            r@ == "gl-reconciliation"@,
    {
        "gl-reconciliation"
    }

    pub fn title(&self) -> (r: &'static str)
        ensures
            r@ == "Stock / GL Reconciliation"@,
    {
        "Stock / GL Reconciliation"
    }

    pub fn group(&self) -> (r: &'static str)
        ensures
            r@ == "Inventory"@,
    {
        "Inventory"
    }

    pub fn outputs(&self) -> (r: Vec<ReportOutput>)
        ensures
            r@ == seq![ReportOutput::Pdf, ReportOutput::Excel, ReportOutput::Table],
    {
        vec![ReportOutput::Pdf, ReportOutput::Excel, ReportOutput::Table]
    }

    /// What a reader must be granted.
    pub fn permission(&self) -> (r: Option<&'static str>)
        ensures
            r == Some(permissions::REPORTS_VIEW),
    {
        Some(permissions::REPORTS_VIEW)
    }

    pub fn default_format(&self) -> (r: ReportFormat)
        ensures
            r == ReportFormat::Compact,
    {
        ReportFormat::Compact
    }
}

/// The columns.
pub open spec fn columns() -> Seq<Head> {
    seq![
        ("Measure"@, ColumnKind::Text),
        ("Operational"@, ColumnKind::Number),
        ("GL balance"@, ColumnKind::Number),
        ("Gap"@, ColumnKind::Number),
    ]
}

fn make_columns() -> (r: Vec<Column>)
    ensures
        heads(r@) == columns(),
{
    let list = vec![
        Column::new("Measure"),
        Column::number("Operational"),
        Column::number("GL balance"),
        Column::number("Gap"),
    ];
    assert(heads(list@) =~= columns());
    list
}

/// An amount to two decimals; a dash where there is none.
pub open spec fn or_dash_text(n: Option<Num>) -> Seq<char> {
    match n {
        Some(n) => fixed_text(n, 2),
        None => "—"@,
    }
}

fn or_dash(v: Option<Decimal>) -> (r: String)
    ensures
        r@ == or_dash_text(opt(v)),
{
    match v {
        Some(v) => v.to_fixed(2),
        None => "—".to_owned(),
    }
}

/// What stock is worth, against its accounts.
pub open spec fn inventory_cells(view: GlReconciliationView) -> Seq<Seq<char>> {
    seq![
        "Inventory value"@,
        fixed_text(view.stock_value@, 2),
        or_dash_text(opt(view.inventory_account_balance)),
        or_dash_text(opt(view.inventory_gap)),
    ]
}

fn make_inventory_cells(view: &GlReconciliationView) -> (r: Vec<String>)
    ensures
        texts(r@) == inventory_cells(*view),
{
    let list = vec![
        "Inventory value".to_owned(),
        view.stock_value.to_fixed(2),
        or_dash(view.inventory_account_balance),
        or_dash(view.inventory_gap),
    ];
    assert(texts(list@) =~= inventory_cells(*view));
    list
}

/// What is received and not billed, against its account.
pub open spec fn grni_cells(view: GlReconciliationView) -> Seq<Seq<char>> {
    seq![
        "Goods received not invoiced"@,
        fixed_text(view.grni_open@, 2),
        or_dash_text(opt(view.grni_account_balance)),
        or_dash_text(opt(view.grni_gap)),
    ]
}

fn make_grni_cells(view: &GlReconciliationView) -> (r: Vec<String>)
    ensures
        texts(r@) == grni_cells(*view),
{
    let list = vec![
        "Goods received not invoiced".to_owned(),
        view.grni_open.to_fixed(2),
        or_dash(view.grni_account_balance),
        or_dash(view.grni_gap),
    ];
    assert(texts(list@) =~= grni_cells(*view));
    list
}

/// What is still under way.
pub open spec fn pending_cells(view: GlReconciliationView) -> Seq<Seq<char>> {
    seq![
        "Pending GL requests"@,
        digits(view.pending_outbox as nat),
        ""@,
        ""@,
    ]
}

fn make_pending_cells(view: &GlReconciliationView) -> (r: Vec<String>)
    ensures
        texts(r@) == pending_cells(*view),
{
    let list = vec![
        "Pending GL requests".to_owned(),
        show_nat(view.pending_outbox as u64),
        "".to_owned(),
        "".to_owned(),
    ];
    assert(texts(list@) =~= pending_cells(*view));
    list
}

/// The table.
pub open spec fn grid(view: GlReconciliationView) -> Grid {
    Grid {
        title: Some("Stock / GL Reconciliation"@),
        heads: columns(),
        lines: seq![
            plain(inventory_cells(view)),
            plain(grni_cells(view)),
            plain(pending_cells(view)),
        ],
        totals: None,
    }
}

impl GlReconciliationReport {
    /// Lay the figures out.
    pub fn build(&self, view: &GlReconciliationView) -> (r: Report)
        ensures
            is_table_report(
                r,
                "Stock / GL Reconciliation"@,
                "The stock engine's value against the ledger's, base currency"@,
                Orientation::Portrait,
                grid(*view),
            ),
    {
        let mut table = Table::new(make_columns());
        table.set_title("Stock / GL Reconciliation");
        table.add(Row::new(make_inventory_cells(view)));
        table.add(Row::new(make_grni_cells(view)));
        table.add(Row::new(make_pending_cells(view)));
        assert(table@.lines =~= grid(*view).lines);
        Report::of_table(
            "Stock / GL Reconciliation",
            "The stock engine's value against the ledger's, base currency".to_owned(),
            Orientation::Portrait,
            table,
        )
    }
}

} // verus!
