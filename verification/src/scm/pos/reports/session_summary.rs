//! POS Sessions: every session in a window, with its takings, its variance and its
//! tempo.

use crate::clock::{show_stamp, stamp_text};
use crate::date::opt_day;
use crate::decimal::opt;
use crate::error::{Error, Refusal};
use crate::figures::{
    count, count_text, money, money_text, opt_money, opt_money_text, opt_plain, opt_plain_text,
    window, window_text,
};
use crate::report::{
    heads, is_table_report, plain, Column, ColumnKind, Grid, Head, Line, Orientation, Report,
    ReportOutput, Row, Table,
};
use crate::scm::pos::permissions;
use crate::scm::pos::session::status_text;
use crate::text::{cat2, digits, number_or_blank, opt_text, show_nat, show_or_blank, texts};
use super::queries::sessions::{SessionSummaryRow, SessionSummaryView};
use vstd::prelude::*;

verus! {

/// Loads the sessions of a window.
#[derive(Clone, Copy, Debug)]
pub struct SessionSummaryDataSource;

impl SessionSummaryDataSource {
    /// The key that the figures are kept under.
    pub fn key(&self) -> (r: &'static str)
        ensures
            r@ == "pos_sessions"@,
    {
        "pos_sessions"
    }
}

#[derive(Clone, Copy, Debug)]
pub struct SessionSummaryReport;

impl SessionSummaryReport {
    pub fn name(&self) -> (r: &'static str)
        ensures
            r@ == "pos-sessions"@,
    {
        "pos-sessions"
    }

    pub fn title(&self) -> (r: &'static str)
        ensures
            r@ == "POS Sessions"@,
    {
        "POS Sessions"
    }

    pub fn group(&self) -> (r: &'static str)
        ensures
            r@ == "Point of Sale"@,
    {
        "Point of Sale"
    }

    pub fn outputs(&self) -> (r: Vec<ReportOutput>)
        ensures
            r@ == seq![ReportOutput::Pdf, ReportOutput::Excel, ReportOutput::Table],
    {
        vec![ReportOutput::Pdf, ReportOutput::Excel, ReportOutput::Table]
    }

    /// What a reader must be granted.
    pub fn permission(&self) -> (r: Option<&'static str>)
        ensures
            r == Some(permissions::REPORTS_VIEW),
    {
        Some(permissions::REPORTS_VIEW)
    }
}

/// The columns.
pub open spec fn columns() -> Seq<Head> {
    seq![
        ("Session"@, ColumnKind::Text),
        ("Register"@, ColumnKind::Text),
        ("Opened"@, ColumnKind::Text),
        ("Status"@, ColumnKind::Text),
        ("Sales"@, ColumnKind::Number),
        ("Refunds"@, ColumnKind::Number),
        ("Voids"@, ColumnKind::Number),
        ("Gross"@, ColumnKind::Number),
        ("Refunded"@, ColumnKind::Number),
        ("Net"@, ColumnKind::Number),
        ("VAT"@, ColumnKind::Number),
        ("Cash +/-"@, ColumnKind::Number),
        ("Sec/Sale"@, ColumnKind::Number),
    ]
}

fn make_columns() -> (r: Vec<Column>)
    ensures
        heads(r@) == columns(),
{
    let list = vec![
        Column::new("Session"),
        Column::new("Register"),
        Column::new("Opened"),
        Column::new("Status"),
        Column::number("Sales"),
        Column::number("Refunds"),
        Column::number("Voids"),
        Column::number("Gross"),
        Column::number("Refunded"),
        Column::number("Net"),
        Column::number("VAT"),
        Column::number("Cash +/-"),
        Column::number("Sec/Sale"),
    ];
    assert(heads(list@) =~= columns());
    list
}

/// The row of a session that was opened at a moment.
pub open spec fn cells(row: SessionSummaryRow, opened: Seq<char>) -> Seq<Seq<char>> {
    seq![
        number_or_blank(opt_text(row.number)),
        row.register_code@,
        opened,
        status_text(row.status),
        digits(row.orders as nat),
        count_text(row.refunds as nat),
        count_text(row.voids as nat),
        money_text(row.gross_sales@),
        money_text(row.refund_total@),
        money_text(row.net_total@),
        money_text(row.tax_total@),
        opt_money_text(opt(row.cash_variance)),
        opt_plain_text(opt(row.avg_sale_seconds)),
    ]
}

/// Whether a calendar has the day that a session was opened on.
pub open spec fn is_dated(row: SessionSummaryRow) -> bool {
    stamp_text(row.opened_at as int) is Some
}

/// The row of a session.
pub open spec fn line_of(row: SessionSummaryRow) -> Line {
    plain(cells(row, stamp_text(row.opened_at as int)->0))
}

fn make_cells(row: &SessionSummaryRow) -> (r: Option<Vec<String>>)
    ensures
        match stamp_text(row.opened_at as int) {
            Some(opened) => r is Some && texts(r->0@) == cells(*row, opened),
            None => r is None,
        },
{
    let opened = show_stamp(row.opened_at)?;
    let ghost moment = opened@;
    let list = vec![
        show_or_blank(&row.number),
        row.register_code.clone(),
        opened,
        row.status.as_str().to_owned(),
        show_nat(row.orders as u64),
        count(row.refunds),
        count(row.voids),
        money(row.gross_sales),
        money(row.refund_total),
        money(row.net_total),
        money(row.tax_total),
        opt_money(row.cash_variance),
        opt_plain(row.avg_sale_seconds),
    ];
    assert(texts(list@) =~= cells(*row, moment));
    Some(list)
}

/// The row of totals.
pub open spec fn totals(view: SessionSummaryView) -> Seq<Seq<char>> {
    seq![
        ""@,
        ""@,
        ""@,
        "Total"@,
        ""@,
        ""@,
        ""@,
        money_text(view.gross_sales@),
        money_text(view.refund_total@),
        money_text(view.net_total@),
        money_text(view.tax_total@),
        money_text(view.cash_variance@),
        ""@,
    ]
}

fn make_totals(view: &SessionSummaryView) -> (r: Vec<String>)
    ensures
        texts(r@) == totals(*view),
{
    let list = vec![
        "".to_owned(),
        "".to_owned(),
        "".to_owned(),
        "Total".to_owned(),
        "".to_owned(),
        "".to_owned(),
        "".to_owned(),
        money(view.gross_sales),
        money(view.refund_total),
        money(view.net_total),
        money(view.tax_total),
        money(view.cash_variance),
        "".to_owned(),
    ];
    assert(texts(list@) =~= totals(*view));
    list
}

/// The table.
pub open spec fn grid(view: SessionSummaryView) -> Grid {
    Grid {
        title: None,
        heads: columns(),
        lines: Seq::new(view.rows@.len(), |k: int| line_of(view.rows@[k])),
        totals: Some(totals(view)),
    }
}

impl SessionSummaryReport {
    /// Lay the figures out; refused where no calendar has the day that a
    /// session was opened on.
    pub fn build(&self, view: &SessionSummaryView) -> (r: Result<Report, Error>)
        ensures
            match r {
                Ok(report) => (forall|i: int|
                    0 <= i < view.rows@.len() ==> is_dated(#[trigger] view.rows@[i]))
                    && is_table_report(
                    report,
                    "POS Sessions"@,
                    "Till sessions"@ + window_text(opt_day(view.span.from), opt_day(view.span.to)),
                    Orientation::Landscape,
                    grid(*view),
                ),
                Err(e) => e@ == Refusal::Overflow && exists|i: int|
                    0 <= i < view.rows@.len() && !is_dated(#[trigger] view.rows@[i]),
            },
    {
        let mut table = Table::new(make_columns());
        let mut i: usize = 0;
        while i < view.rows.len()
            invariant
                i <= view.rows.len(),
                forall|k: int| 0 <= k < i ==> is_dated(#[trigger] view.rows@[k]),
                table@.title is None,
                table@.heads == columns(),
                table@.lines == Seq::new(i as nat, |k: int| line_of(view.rows@[k])),
                table@.totals is None,
            decreases view.rows.len() - i,
        {
            match make_cells(&view.rows[i]) {
                Some(cells) => {
                    table.add(Row::new(cells));
                },
                None => {
                    assert(!is_dated(view.rows@[i as int]));
                    return Err(Error::Overflow);
                },
            }
            assert(table@.lines =~= Seq::new((i + 1) as nat, |k: int| line_of(view.rows@[k])));
            i = i + 1;
        }
        table.set_totals(make_totals(view));
        assert(table@.lines =~= grid(*view).lines);
        let clause = window(view.span.from, view.span.to);
        let subtitle = cat2("Till sessions", clause.as_str());
        Ok(Report::of_table("POS Sessions", subtitle, Orientation::Landscape, table))
    }
}

} // verus!
