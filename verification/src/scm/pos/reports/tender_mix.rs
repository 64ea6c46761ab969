//! Tender Mix: how the money of a window arrived.

use crate::date::opt_day;
use crate::decimal::opt;
use crate::figures::{money, money_text, opt_plain, opt_plain_text, window, window_text};
use crate::report::{
    heads, is_table_report, plain, Column, ColumnKind, Grid, Head, Orientation, Report,
    ReportOutput, Row, Table,
};
use crate::scm::pos::permissions;
use crate::text::{cat2, digits, show_nat, texts};
use super::queries::{TenderMixRow, TenderMixView};
use vstd::prelude::*;

verus! {

/// Loads how the money arrived.
#[derive(Clone, Copy, Debug)]
pub struct TenderMixDataSource;

impl TenderMixDataSource {
    /// The key that the figures are kept under.
    pub fn key(&self) -> (r: &'static str)
        ensures
            r@ == "pos_tender_mix"@,
    {
        "pos_tender_mix"
    }
}

#[derive(Clone, Copy, Debug)]
pub struct TenderMixReport;

impl TenderMixReport {
    pub fn name(&self) -> (r: &'static str)
        ensures
            r@ == "pos-tender-mix"@,
    {
        "pos-tender-mix"
    }

    pub fn title(&self) -> (r: &'static str)
        ensures
            r@ == "POS Tender Mix"@,
    {
        "POS Tender Mix"
    }

    pub fn group(&self) -> (r: &'static str)
        ensures
            r@ == "Point of Sale"@,
    {
        "Point of Sale"
    }

    pub fn outputs(&self) -> (r: Vec<ReportOutput>)
        ensures
            r@ == seq![ReportOutput::Pdf, ReportOutput::Excel, ReportOutput::Table],
    {
        vec![ReportOutput::Pdf, ReportOutput::Excel, ReportOutput::Table]
    }

    /// What a reader must be granted.
    pub fn permission(&self) -> (r: Option<&'static str>)
        ensures
            r == Some(permissions::REPORTS_VIEW),
    {
        Some(permissions::REPORTS_VIEW)
    }
}

/// The columns.
pub open spec fn columns() -> Seq<Head> {
    seq![
        ("Tender"@, ColumnKind::Text),
        ("Payments"@, ColumnKind::Number),
        ("Sales"@, ColumnKind::Number),
        ("Refunds"@, ColumnKind::Number),
        ("Net"@, ColumnKind::Number),
        ("Share %"@, ColumnKind::Number),
    ]
}

fn make_columns() -> (r: Vec<Column>)
    ensures
        heads(r@) == columns(),
{
    let list = vec![
        Column::new("Tender"),
        Column::number("Payments"),
        Column::number("Sales"),
        Column::number("Refunds"),
        Column::number("Net"),
        Column::number("Share %"),
    ];
    assert(heads(list@) =~= columns());
    list
}

/// The row of a tender.
pub open spec fn cells(row: TenderMixRow) -> Seq<Seq<char>> {
    seq![
        row.tender@,
        digits(row.payments as nat),
        money_text(row.sales@),
        money_text(row.refunds@),
        money_text(row.net@),
        opt_plain_text(opt(row.share_pct)),
    ]
}

fn make_cells(row: &TenderMixRow) -> (r: Vec<String>)
    ensures
        texts(r@) == cells(*row),
{
    let list = vec![
        row.tender.clone(),
        show_nat(row.payments as u64),
        money(row.sales),
        money(row.refunds),
        money(row.net),
        opt_plain(row.share_pct),
    ];
    assert(texts(list@) =~= cells(*row));
    list
}

/// The row of totals.
pub open spec fn totals(view: TenderMixView) -> Seq<Seq<char>> {
    seq![
        "Total"@,
        ""@,
        ""@,
        ""@,
        money_text(view.net_total@),
        ""@,
    ]
}

fn make_totals(view: &TenderMixView) -> (r: Vec<String>)
    ensures
        texts(r@) == totals(*view),
{
    let list = vec![
        "Total".to_owned(),
        "".to_owned(),
        "".to_owned(),
        "".to_owned(),
        money(view.net_total),
        "".to_owned(),
    ];
    assert(texts(list@) =~= totals(*view));
    list
}

/// The table.
pub open spec fn grid(view: TenderMixView) -> Grid {
    Grid {
        title: None,
        heads: columns(),
        lines: Seq::new(view.rows@.len(), |k: int| plain(cells(view.rows@[k]))),
        totals: Some(totals(view)),
    }
}

fn make_table(view: &TenderMixView) -> (r: Table)
    ensures
        r@ == grid(*view),
{
    let mut table = Table::new(make_columns());
    let mut i: usize = 0;
    while i < view.rows.len()
        invariant
            i <= view.rows.len(),
            table@.title is None,
            table@.heads == columns(),
            table@.lines == Seq::new(i as nat, |k: int| plain(cells(view.rows@[k]))),
            table@.totals is None,
        decreases view.rows.len() - i,
    {
        let ghost held = table@.lines;
        table.add(Row::new(make_cells(&view.rows[i])));
        assert(table@.lines =~= Seq::new((i + 1) as nat, |k: int| plain(cells(view.rows@[k]))));
        i = i + 1;
    }
    table.set_totals(make_totals(view));
    assert(table@.lines =~= grid(*view).lines);
    table
}

impl TenderMixReport {
    /// Lay the figures out.
    pub fn build(&self, view: &TenderMixView) -> (r: Report)
        ensures
            is_table_report(
                r,
                "POS Tender Mix"@,
                "Takings by tender"@ + window_text(opt_day(view.span.from), opt_day(view.span.to)),
                Orientation::Portrait,
                grid(*view),
            ),
    {
        let clause = window(view.span.from, view.span.to);
        let subtitle = cat2("Takings by tender", clause.as_str());
        Report::of_table("POS Tender Mix", subtitle, Orientation::Portrait, make_table(view))
    }
}

} // verus!
