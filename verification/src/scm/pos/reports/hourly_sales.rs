//! Hourly Sales: the shape of the day.

use crate::date::opt_day;
use crate::decimal::{Decimal, Num};
use crate::error::{in_range, refusal, Error, Refusal};
use crate::figures::{
    count, count_text, money, money_text, signed, signed_text, window, window_text,
};
use crate::report::{
    heads, is_table_report, plain, Column, ColumnKind, Grid, Head, Orientation, Report,
    ReportOutput, Row, Table,
};
use crate::scm::pos::permissions;
use crate::sums::{lemma_total_none, total, total_to};
use crate::text::{cat3, cat4, digits, padded, show_nat, show_padded, texts};
use super::queries::hours::{HourlyRow, HourlyView};
use vstd::prelude::*;

verus! {

/// Loads the takings of each hour.
#[derive(Clone, Copy, Debug)]
pub struct HourlySalesDataSource;

impl HourlySalesDataSource {
    /// The key that the figures are kept under.
    pub fn key(&self) -> (r: &'static str)
        ensures
            r@ == "pos_hourly_sales"@,
    {
        "pos_hourly_sales"
    }
}

#[derive(Clone, Copy, Debug)]
pub struct HourlySalesReport;

impl HourlySalesReport {
    pub fn name(&self) -> (r: &'static str)
        ensures
            r@ == "pos-hourly-sales"@,
    {
        "pos-hourly-sales"
    }

    pub fn title(&self) -> (r: &'static str)
        ensures
            r@ == "POS Hourly Sales"@,
    {
        "POS Hourly Sales"
    }

    pub fn group(&self) -> (r: &'static str)
        ensures
            r@ == "Point of Sale"@,
    {
        "Point of Sale"
    }

    pub fn outputs(&self) -> (r: Vec<ReportOutput>)
        ensures
            r@ == seq![ReportOutput::Pdf, ReportOutput::Excel, ReportOutput::Table],
    {
        vec![ReportOutput::Pdf, ReportOutput::Excel, ReportOutput::Table]
    }

    /// What a reader must be granted.
    pub fn permission(&self) -> (r: Option<&'static str>)
        ensures
            r == Some(permissions::REPORTS_VIEW),
    {
        Some(permissions::REPORTS_VIEW)
    }
}

/// The columns.
pub open spec fn columns() -> Seq<Head> {
    seq![
        ("Hour"@, ColumnKind::Text),
        ("Sales"@, ColumnKind::Number),
        ("Refunds"@, ColumnKind::Number),
        ("Gross"@, ColumnKind::Number),
        ("Refunded"@, ColumnKind::Number),
        ("Net"@, ColumnKind::Number),
    ]
}

fn make_columns() -> (r: Vec<Column>)
    ensures
        heads(r@) == columns(),
{
    let list = vec![
        Column::new("Hour"),
        Column::number("Sales"),
        Column::number("Refunds"),
        Column::number("Gross"),
        Column::number("Refunded"),
        Column::number("Net"),
    ];
    assert(heads(list@) =~= columns());
    list
}

/// A number in at least two digits.
pub open spec fn two_digits(n: nat) -> Seq<char> {
    if n < 10 {
        padded(n, 2)
    } else {
        digits(n)
    }
}

/// `09:00–09:59`.
pub open spec fn hour_text(hour: nat) -> Seq<char> {
    two_digits(hour) + ":00–"@ + two_digits(hour) + ":59"@
}

fn show_hour(hour: u64) -> (r: String)
    ensures
        r@ == hour_text(hour as nat),
{
    let h = if hour < 10 {
        show_padded(hour, 2)
    } else {
        show_nat(hour)
    };
    cat4(h.as_str(), ":00–", h.as_str(), ":59")
}

/// The row of an hour.
pub open spec fn cells(row: HourlyRow) -> Seq<Seq<char>> {
    seq![
        hour_text(row.hour as nat),
        digits(row.sales as nat),
        count_text(row.refunds as nat),
        money_text(row.gross_sales@),
        money_text(row.refund_total@),
        money_text(row.net_total@),
    ]
}

fn make_cells(row: &HourlyRow) -> (r: Vec<String>)
    ensures
        texts(r@) == cells(*row),
{
    let list = vec![
        show_hour(row.hour),
        show_nat(row.sales as u64),
        count(row.refunds),
        money(row.gross_sales),
        money(row.refund_total),
        money(row.net_total),
    ];
    assert(texts(list@) =~= cells(*row));
    list
}

/// How many sales the first `n` hours saw.
pub open spec fn sales_to(rows: Seq<HourlyRow>, n: nat) -> nat
    decreases n,
{
    if n == 0 {
        0
    } else {
        sales_to(rows, (n - 1) as nat) + rows[n - 1].sales as nat
    }
}

proof fn lemma_sales_grow(rows: Seq<HourlyRow>, i: nat, n: nat)
    requires
        i <= n,
    ensures
        sales_to(rows, i) <= sales_to(rows, n),
    decreases n,
{
    if i < n {
        lemma_sales_grow(rows, i, (n - 1) as nat);
    }
}

/// What the hours took.
pub open spec fn nets(rows: Seq<HourlyRow>) -> Seq<Num> {
    rows.map_values(|r: HourlyRow| r.net_total@)
}

/// The row of totals.
pub open spec fn totals(sales: nat, net: Num) -> Seq<Seq<char>> {
    seq!["Total"@, digits(sales), ""@, ""@, ""@, money_text(net)]
}

/// The table.
pub open spec fn grid(rows: Seq<HourlyRow>, net: Num) -> Grid {
    Grid {
        title: None,
        heads: columns(),
        lines: Seq::new(rows.len(), |k: int| plain(cells(rows[k]))),
        totals: Some(totals(sales_to(rows, rows.len()), net)),
    }
}

/// In which hours the day is counted.
pub open spec fn zone_text(offset: int) -> Seq<char> {
    if offset == 0 {
        " (UTC hours)"@
    } else {
        " (UTC"@ + signed_text(offset) + " min)"@
    }
}

fn show_zone(offset: i32) -> (r: String)
    ensures
        r@ == zone_text(offset as int),
{
    if offset == 0 {
        " (UTC hours)".to_owned()
    } else {
        let shown = signed(offset);
        cat3(" (UTC", shown.as_str(), " min)")
    }
}

impl HourlySalesReport {
    /// Lay the figures out; refused where a total leaves the range.
    pub fn build(&self, view: &HourlyView) -> (r: Result<Report, Error>)
        ensures
            match total(nets(view.rows@)) {
                Some(net) if sales_to(view.rows@, view.rows@.len()) <= u64::MAX => r is Ok
                    && is_table_report(
                    r->Ok_0,
                    "POS Hourly Sales"@,
                    "Takings by hour of day"@ + window_text(
                        opt_day(view.span.from),
                        opt_day(view.span.to),
                    ) + zone_text(view.tz_offset_minutes as int),
                    Orientation::Portrait,
                    grid(view.rows@, net),
                ),
                _ => refusal(r) == Some(Refusal::Overflow),
            },
    {
        let rows = &view.rows;
        let mut table = Table::new(make_columns());
        let mut sales: u64 = 0;
        let mut net = Decimal::zero();
        let mut i: usize = 0;
        while i < rows.len()
            invariant
                i <= rows.len(),
                *rows == view.rows,
                sales == sales_to(rows@, i as nat),
                total_to(nets(rows@), i as nat) == Some(net@),
                table@.title is None,
                table@.heads == columns(),
                table@.lines == Seq::new(i as nat, |k: int| plain(cells(rows@[k]))),
                table@.totals is None,
            decreases rows.len() - i,
        {
            proof {
                assert(nets(rows@)[i as int] == rows@[i as int].net_total@);
                if total_to(nets(rows@), (i + 1) as nat) is None {
                    lemma_total_none(nets(rows@), (i + 1) as nat, rows@.len());
                }
                lemma_sales_grow(rows@, (i + 1) as nat, rows@.len());
            }
            sales = in_range(sales.checked_add(rows[i].sales as u64))?;
            net = in_range(net.checked_add(rows[i].net_total))?;
            table.add(Row::new(make_cells(&rows[i])));
            assert(table@.lines =~= Seq::new((i + 1) as nat, |k: int| plain(cells(rows@[k]))));
            i = i + 1;
        }
        let foot = vec![
            "Total".to_owned(),
            show_nat(sales),
            "".to_owned(),
            "".to_owned(),
            "".to_owned(),
            money(net),
        ];
        assert(texts(foot@) =~= totals(sales as nat, net@));
        table.set_totals(foot);
        assert(table@.lines =~= grid(rows@, net@).lines);
        let clause = window(view.span.from, view.span.to);
        let zone = show_zone(view.tz_offset_minutes);
        let subtitle = cat3("Takings by hour of day", clause.as_str(), zone.as_str());
        Ok(Report::of_table("POS Hourly Sales", subtitle, Orientation::Portrait, table))
    }
}

} // verus!
