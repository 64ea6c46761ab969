//! The printed Z: one closed session, the paper a shop staples to the day's drawer
//! count.

use super::queries::items::{are_sold, ZItemRow};
use super::queries::sessions::Tempo;
use super::queries::PosQueries;
use crate::clock::{show_stamp, stamp_text};
use crate::decimal::{fixed_text, normalized, opt, plain_text, times, zero, Decimal, Num};
use crate::error::{in_range, Error, Refusal};
use crate::figures::{money, money_text, opt_money, opt_money_text, qty, qty_text};
use crate::report::{
    heads, pairs, plain, Column, ColumnKind, Grid, Head, KeyValue, Metric, Orientation, Pair,
    Report, ReportOutput, Row, Table, Widget,
};
use crate::scm::pos::permissions;
use crate::scm::pos::register::Model as Register;
use crate::scm::pos::sale::SaleService;
use crate::scm::pos::session::SessionService;
use crate::scm::pos::takings::{is_z, SessionReport, SessionView, TenderReportLine};
use crate::sums::sum_of;
use crate::text::{
    cat2, cat3, digits, int_text, number_or_blank, opt_text, show_int, show_nat, show_or_blank,
    texts,
};
use vstd::prelude::*;

verus! {

/// Loads what the printed Z of a session holds.
#[derive(Clone, Copy, Debug)]
pub struct ZReportDataSource;

impl ZReportDataSource {
    /// The key that the figures are kept under.
    pub fn key(&self) -> (r: &'static str)
        ensures
            r@ == "pos_z_report"@,
    {
        "pos_z_report"
    }
}

#[derive(Clone, Copy, Debug)]
pub struct ZReportDocument;

impl ZReportDocument {
    pub fn name(&self) -> (r: &'static str)
        ensures
            r@ == "pos-z"@,
    {
        "pos-z"
    }

    pub fn title(&self) -> (r: &'static str)
        ensures
            r@ == "Z Report"@,
    {
        "Z Report"
    }

    pub fn group(&self) -> (r: &'static str)
        ensures
            r@ == "Point of Sale"@,
    {
        "Point of Sale"
    }

    pub fn outputs(&self) -> (r: Vec<ReportOutput>)
        ensures
            r@ == seq![ReportOutput::Pdf],
    {
        vec![ReportOutput::Pdf]
    }

    /// What a reader must be granted.
    pub fn permission(&self) -> (r: Option<&'static str>)
        ensures
            r == Some(permissions::REPORTS_VIEW),
    {
        Some(permissions::REPORTS_VIEW)
    }

    /// One session per Z; without a record there is nothing to print.
    pub fn requires_record(&self) -> (r: bool)
        ensures
            r,
    {
        true
    }
}

/// How many of a note or coin were counted.
#[derive(Clone, Copy, Debug)]
pub struct DenominationCount {
    pub denom: Decimal,
    pub count: i64,
}

/// The count sheet of a tender.
#[derive(Debug)]
pub struct TenderSheet {
    pub tender: String,
    pub lines: Vec<DenominationCount>,
}

/// Everything the printed Z holds: the stored report of the session, the count
/// sheets behind the counts, what was sold, and the tempo.
#[derive(Debug)]
pub struct ZView {
    pub report: SessionReport,
    pub sheets: Vec<TenderSheet>,
    pub items: Vec<ZItemRow>,
    pub avg_sale_seconds: Option<Decimal>,
    pub avg_sale_inputs: Option<Decimal>,
}

impl PosQueries {
    /// Everything the printed Z of a session holds; the count sheets and the
    /// tempo are handed in.
    pub fn z(
        service: &SessionService,
        book: &SaleService,
        register: Option<&Register>,
        session: u128,
        sheets: Vec<TenderSheet>,
        tempo: Tempo,
    ) -> (r: Result<ZView, Error>)
        ensures
            match r {
                Ok(z) => {
                    &&& is_z(
                        Ok::<SessionReport, Error>(z.report),
                        *service,
                        book@,
                        register,
                        session,
                    )
                    &&& are_sold(Ok::<Vec<ZItemRow>, Error>(z.items), book@, session)
                    &&& z.sheets == sheets
                    &&& z.avg_sale_seconds == tempo.seconds
                    &&& z.avg_sale_inputs == tempo.inputs
                },
                Err(e) => is_z(
                    Err::<SessionReport, Error>(e),
                    *service,
                    book@,
                    register,
                    session,
                ) || are_sold(Err::<Vec<ZItemRow>, Error>(e), book@, session),
            },
    {
        let report = match service.z_report(book, register, session) {
            Ok(report) => report,
            Err(e) => {
                return Err(e);
            },
        };
        let items = match PosQueries::z_items(book, session) {
            Ok(items) => items,
            Err(e) => {
                return Err(e);
            },
        };
        Ok(
            ZView {
                report,
                sheets,
                items,
                avg_sale_seconds: tempo.seconds,
                avg_sale_inputs: tempo.inputs,
            },
        )
    }
}

// ---------------------------------------------------------------------------
// The head
// ---------------------------------------------------------------------------

/// Whether a calendar has the days that a session was opened and closed on.
pub open spec fn is_dated(s: SessionView) -> bool {
    stamp_text(s.opened_at as int) is Some && (s.closed_at matches Some(at) ==> stamp_text(
        at as int,
    ) is Some)
}

/// What identifies the session.
pub open spec fn meta(s: SessionView) -> Seq<Pair> {
    let opened = seq![
        ("Register"@, s.register_code@ + " — "@ + s.register_name@),
        ("Opened"@, stamp_text(s.opened_at as int)->0),
    ];
    let closed = match s.closed_at {
        Some(at) => seq![("Closed"@, stamp_text(at as int)->0)],
        None => Seq::empty(),
    };
    let note = match s.closing_note {
        Some(n) => seq![("Closing note"@, n@)],
        None => Seq::empty(),
    };
    opened + closed + seq![("Opening float"@, fixed_text(s.opening_float@, 2))] + note
}

fn push_pair(items: &mut Vec<KeyValue>, label: &str, value: String)
    ensures
        pairs(final(items)@) == pairs(old(items)@).push((label@, value@)),
{
    let ghost held = pairs(items@);
    let pair = KeyValue::new(label, value);
    items.push(pair);
    assert(pairs(items@) =~= held.push(pair@));
}

fn no_pairs() -> (r: Vec<KeyValue>)
    ensures
        pairs(r@) == Seq::<Pair>::empty(),
{
    let items: Vec<KeyValue> = Vec::new();
    assert(pairs(items@) =~= Seq::<Pair>::empty());
    items
}

fn make_meta(s: &SessionView) -> (r: Option<Vec<KeyValue>>)
    ensures
        match r {
            Some(items) => is_dated(*s) && pairs(items@) == meta(*s),
            None => !is_dated(*s),
        },
{
    let mut items = no_pairs();
    push_pair(
        &mut items,
        "Register",
        cat3(s.register_code.as_str(), " — ", s.register_name.as_str()),
    );
    push_pair(&mut items, "Opened", show_stamp(s.opened_at)?);
    if let Some(at) = s.closed_at {
        push_pair(&mut items, "Closed", show_stamp(at)?);
    }
    push_pair(&mut items, "Opening float", s.opening_float.to_fixed(2));
    if let Some(note) = &s.closing_note {
        push_pair(&mut items, "Closing note", note.clone());
    }
    assert(pairs(items@) =~= meta(*s));
    Some(items)
}

/// What a figure with a caption says.
pub type Figure = (Seq<char>, Seq<char>, Option<Seq<char>>);

pub open spec fn figures(items: Seq<Metric>) -> Seq<Figure> {
    items.map_values(|m: Metric| (m.label@, m.value@, opt_text(m.caption)))
}

/// The four figures of the day.
pub open spec fn day_figures(r: SessionReport) -> Seq<Figure> {
    seq![
        (
            "Gross sales"@,
            fixed_text(r.gross_sales@, 2),
            Some(digits(r.orders as nat) + " sales"@),
        ),
        (
            "Refunds"@,
            fixed_text(r.refund_total@, 2),
            Some(digits(r.refunds as nat) + " refunds"@),
        ),
        ("Net takings"@, fixed_text(r.net_total@, 2), Some("VAT included"@)),
        ("VAT inside"@, fixed_text(r.tax_total@, 2), None),
    ]
}

fn make_figures(r: &SessionReport) -> (m: Vec<Metric>)
    ensures
        figures(m@) == day_figures(*r),
{
    let sales = show_nat(r.orders as u64);
    let refunds = show_nat(r.refunds as u64);
    let list = vec![
        Metric {
            label: "Gross sales".to_owned(),
            value: r.gross_sales.to_fixed(2),
            caption: Some(cat2(sales.as_str(), " sales")),
        },
        Metric {
            label: "Refunds".to_owned(),
            value: r.refund_total.to_fixed(2),
            caption: Some(cat2(refunds.as_str(), " refunds")),
        },
        Metric {
            label: "Net takings".to_owned(),
            value: r.net_total.to_fixed(2),
            caption: Some("VAT included".to_owned()),
        },
        Metric { label: "VAT inside".to_owned(), value: r.tax_total.to_fixed(2), caption: None },
    ];
    assert(figures(list@) =~= day_figures(*r));
    list
}

// ---------------------------------------------------------------------------
// Tenders
// ---------------------------------------------------------------------------

/// The columns of the tenders.
pub open spec fn tender_columns() -> Seq<Head> {
    seq![
        ("Tender"@, ColumnKind::Text),
        ("Sales"@, ColumnKind::Number),
        ("Refunds"@, ColumnKind::Number),
        ("Net"@, ColumnKind::Number),
        ("Expected"@, ColumnKind::Number),
        ("Counted"@, ColumnKind::Number),
        ("Variance"@, ColumnKind::Number),
    ]
}

fn make_tender_columns() -> (r: Vec<Column>)
    ensures
        heads(r@) == tender_columns(),
{
    let list = vec![
        Column::new("Tender"),
        Column::number("Sales"),
        Column::number("Refunds"),
        Column::number("Net"),
        Column::number("Expected"),
        Column::number("Counted"),
        Column::number("Variance"),
    ];
    assert(heads(list@) =~= tender_columns());
    list
}

/// An amount to two decimals, zero too: on a Z, no money is a statement.
pub open spec fn opt_amount_text(n: Option<Num>) -> Seq<char> {
    match n {
        Some(n) => fixed_text(n, 2),
        None => ""@,
    }
}

fn opt_amount(v: Option<Decimal>) -> (r: String)
    ensures
        r@ == opt_amount_text(opt(v)),
{
    match v {
        Some(v) => v.to_fixed(2),
        None => "".to_owned(),
    }
}

/// The row of a tender.
pub open spec fn tender_cells(t: TenderReportLine) -> Seq<Seq<char>> {
    seq![
        t.tender@,
        money_text(t.sales@),
        money_text(t.refunds@),
        money_text(t.net@),
        opt_amount_text(opt(t.expected)),
        opt_amount_text(opt(t.counted)),
        opt_money_text(opt(t.variance)),
    ]
}

fn make_tender_cells(t: &TenderReportLine) -> (r: Vec<String>)
    ensures
        texts(r@) == tender_cells(*t),
{
    let list = vec![
        t.tender.clone(),
        money(t.sales),
        money(t.refunds),
        money(t.net),
        opt_amount(t.expected),
        opt_amount(t.counted),
        opt_money(t.variance),
    ];
    assert(texts(list@) =~= tender_cells(*t));
    list
}

/// The table of tenders.
pub open spec fn tender_grid(tenders: Seq<TenderReportLine>) -> Grid {
    Grid {
        title: Some("Tenders"@),
        heads: tender_columns(),
        lines: Seq::new(tenders.len(), |k: int| plain(tender_cells(tenders[k]))),
        totals: None,
    }
}

fn tender_table(tenders: &Vec<TenderReportLine>) -> (r: Table)
    ensures
        r@ == tender_grid(tenders@),
{
    let mut table = Table::new(make_tender_columns());
    table.set_title("Tenders");
    let mut i: usize = 0;
    while i < tenders.len()
        invariant
            i <= tenders.len(),
            table@.title == Some("Tenders"@),
            table@.heads == tender_columns(),
            table@.lines == Seq::new(i as nat, |k: int| plain(tender_cells(tenders@[k]))),
            table@.totals is None,
        decreases tenders.len() - i,
    {
        table.add(Row::new(make_tender_cells(&tenders[i])));
        assert(table@.lines =~= Seq::new(
            (i + 1) as nat,
            |k: int| plain(tender_cells(tenders@[k])),
        ));
        i = i + 1;
    }
    assert(table@.lines =~= tender_grid(tenders@).lines);
    table
}

/// What moved at the drawer.
pub open spec fn drawer_pairs(r: SessionReport) -> Seq<Pair> {
    seq![
        ("Paid in"@, fixed_text(r.paid_in@, 2)),
        ("Paid out"@, fixed_text(r.paid_out@, 2)),
        ("Expected cash"@, opt_amount_text(opt(r.expected_cash))),
    ]
}

fn make_drawer(r: &SessionReport) -> (items: Vec<KeyValue>)
    ensures
        pairs(items@) == drawer_pairs(*r),
{
    let mut items = no_pairs();
    push_pair(&mut items, "Paid in", r.paid_in.to_fixed(2));
    push_pair(&mut items, "Paid out", r.paid_out.to_fixed(2));
    push_pair(&mut items, "Expected cash", opt_amount(r.expected_cash));
    assert(pairs(items@) =~= drawer_pairs(*r));
    items
}

// ---------------------------------------------------------------------------
// Count sheets
// ---------------------------------------------------------------------------

/// The columns of a count sheet.
pub open spec fn sheet_columns() -> Seq<Head> {
    seq![
        ("Denomination"@, ColumnKind::Number),
        ("Count"@, ColumnKind::Number),
        ("Value"@, ColumnKind::Number),
    ]
}

fn make_sheet_columns() -> (r: Vec<Column>)
    ensures
        heads(r@) == sheet_columns(),
{
    let list = vec![
        Column::number("Denomination"),
        Column::number("Count"),
        Column::number("Value"),
    ];
    assert(heads(list@) =~= sheet_columns());
    list
}

/// What the pieces of a denomination are worth together.
pub open spec fn piece_value(l: DenominationCount) -> Option<Num> {
    times(l.denom@, (l.count as int, 0nat))
}

/// What the first `n` lines of a sheet are worth together.
pub open spec fn sheet_value_to(lines: Seq<DenominationCount>, n: nat) -> Option<Num>
    decreases n,
{
    if n == 0 {
        Some(zero())
    } else {
        sum_of(sheet_value_to(lines, (n - 1) as nat), piece_value(lines[n - 1]))
    }
}

proof fn lemma_sheet_stops(lines: Seq<DenominationCount>, i: nat, n: nat)
    requires
        i <= n,
        sheet_value_to(lines, i) is None,
    ensures
        sheet_value_to(lines, n) is None,
    decreases n,
{
    if i < n {
        lemma_sheet_stops(lines, i, (n - 1) as nat);
    }
}

/// The row of a denomination.
pub open spec fn sheet_cells(l: DenominationCount) -> Seq<Seq<char>> {
    seq![
        plain_text(normalized(l.denom@)),
        int_text(l.count as int),
        fixed_text(piece_value(l)->0, 2),
    ]
}

/// The table of a count sheet; `None` where an amount leaves the range.
pub open spec fn sheet_grid(sheet: TenderSheet) -> Option<Grid> {
    match sheet_value_to(sheet.lines@, sheet.lines@.len()) {
        None => None,
        Some(value) => Some(
            Grid {
                title: Some("Count sheet — "@ + sheet.tender@),
                heads: sheet_columns(),
                lines: Seq::new(
                    sheet.lines@.len(),
                    |k: int| plain(sheet_cells(sheet.lines@[k])),
                ),
                totals: Some(seq!["Total"@, ""@, fixed_text(value, 2)]),
            },
        ),
    }
}

fn sheet_table(sheet: &TenderSheet) -> (r: Option<Table>)
    ensures
        match sheet_grid(*sheet) {
            Some(g) => r is Some && r->0@ == g,
            None => r is None,
        },
{
    let lines = &sheet.lines;
    let mut table = Table::new(make_sheet_columns());
    let title = cat2("Count sheet — ", sheet.tender.as_str());
    table.set_title(title.as_str());
    let mut sum = Decimal::zero();
    let mut i: usize = 0;
    while i < lines.len()
        invariant
            i <= lines.len(),
            *lines == sheet.lines,
            sheet_value_to(lines@, i as nat) == Some(sum@),
            table@.title == Some(title@),
            table@.heads == sheet_columns(),
            table@.lines == Seq::new(i as nat, |k: int| plain(sheet_cells(lines@[k]))),
            table@.totals is None,
        decreases lines.len() - i,
    {
        let l = lines[i];
        proof {
            if sheet_value_to(lines@, (i + 1) as nat) is None {
                lemma_sheet_stops(lines@, (i + 1) as nat, lines@.len());
            }
        }
        let value = l.denom.checked_mul(Decimal::from_int(l.count))?;
        sum = sum.checked_add(value)?;
        let cells = vec![l.denom.normalize().text(), show_int(l.count), value.to_fixed(2)];
        assert(texts(cells@) =~= sheet_cells(l));
        table.add(Row::new(cells));
        assert(table@.lines =~= Seq::new((i + 1) as nat, |k: int| plain(sheet_cells(lines@[k]))));
        i = i + 1;
    }
    let foot = vec!["Total".to_owned(), "".to_owned(), sum.to_fixed(2)];
    assert(texts(foot@) =~= seq!["Total"@, ""@, fixed_text(sum@, 2)]);
    table.set_totals(foot);
    assert(table@.lines =~= (sheet_grid(*sheet)->0).lines);
    Some(table)
}

// ---------------------------------------------------------------------------
// Items
// ---------------------------------------------------------------------------

/// The columns of what was sold.
pub open spec fn item_columns() -> Seq<Head> {
    seq![
        ("Item"@, ColumnKind::Wide),
        ("Qty"@, ColumnKind::Number),
        ("Takings"@, ColumnKind::Number),
    ]
}

fn make_item_columns() -> (r: Vec<Column>)
    ensures
        heads(r@) == item_columns(),
{
    let list = vec![
        Column::wide("Item"),
        Column::number("Qty"),
        Column::number("Takings"),
    ];
    assert(heads(list@) =~= item_columns());
    list
}

/// The row of what was sold under a description.
pub open spec fn item_cells(i: ZItemRow) -> Seq<Seq<char>> {
    seq![
        i.description@,
        qty_text(i.qty@),
        money_text(i.gross@),
    ]
}

fn make_item_cells(i: &ZItemRow) -> (r: Vec<String>)
    ensures
        texts(r@) == item_cells(*i),
{
    let list = vec![
        i.description.clone(),
        qty(i.qty),
        money(i.gross),
    ];
    assert(texts(list@) =~= item_cells(*i));
    list
}

/// The table of what was sold.
pub open spec fn item_grid(items: Seq<ZItemRow>) -> Grid {
    Grid {
        title: Some("Items sold"@),
        heads: item_columns(),
        lines: Seq::new(items.len(), |k: int| plain(item_cells(items[k]))),
        totals: None,
    }
}

fn item_table(items: &Vec<ZItemRow>) -> (r: Table)
    ensures
        r@ == item_grid(items@),
{
    let mut table = Table::new(make_item_columns());
    table.set_title("Items sold");
    let mut i: usize = 0;
    while i < items.len()
        invariant
            i <= items.len(),
            table@.title == Some("Items sold"@),
            table@.heads == item_columns(),
            table@.lines == Seq::new(i as nat, |k: int| plain(item_cells(items@[k]))),
            table@.totals is None,
        decreases items.len() - i,
    {
        table.add(Row::new(make_item_cells(&items[i])));
        assert(table@.lines =~= Seq::new((i + 1) as nat, |k: int| plain(item_cells(items@[k]))));
        i = i + 1;
    }
    assert(table@.lines =~= item_grid(items@).lines);
    table
}

// ---------------------------------------------------------------------------
// Tempo
// ---------------------------------------------------------------------------

/// How the till did: what was voided, captured offline or had drifted, and how
/// fast it sold, where that is known.
pub open spec fn tempo(z: ZView) -> Seq<Pair> {
    let counts = seq![
        ("Voided orders"@, digits(z.report.voids as nat)),
        ("Offline captures"@, digits(z.report.offline as nat)),
        ("Price drift"@, digits(z.report.price_drift as nat)),
    ];
    let timed = match z.avg_sale_seconds {
        Some(v) => counts.insert(0, ("Seconds per sale"@, plain_text(v@))),
        None => counts,
    };
    match z.avg_sale_inputs {
        Some(v) => timed.insert(1, ("Inputs per sale"@, plain_text(v@))),
        None => timed,
    }
}

fn make_tempo(z: &ZView) -> (items: Vec<KeyValue>)
    ensures
        pairs(items@) == tempo(*z),
{
    let mut items = no_pairs();
    push_pair(&mut items, "Voided orders", show_nat(z.report.voids as u64));
    push_pair(&mut items, "Offline captures", show_nat(z.report.offline as u64));
    push_pair(&mut items, "Price drift", show_nat(z.report.price_drift as u64));
    let ghost counts = pairs(items@);
    if let Some(v) = z.avg_sale_seconds {
        let pair = KeyValue::new("Seconds per sale", v.text());
        items.insert(0, pair);
        assert(pairs(items@) =~= counts.insert(0, pair@));
    }
    let ghost timed = pairs(items@);
    assert(timed.len() >= 3 && items@.len() == timed.len());
    if let Some(v) = z.avg_sale_inputs {
        let pair = KeyValue::new("Inputs per sale", v.text());
        items.insert(1, pair);
        assert(pairs(items@) =~= timed.insert(1, pair@));
    }
    assert(pairs(items@) =~= tempo(*z));
    items
}

// ---------------------------------------------------------------------------
// The page
// ---------------------------------------------------------------------------

/// A part of the page.
pub enum Part {
    Meta,
    Figures,
    Tenders,
    Drawer,
    Sheet(int),
    Items,
    Tempo,
}

/// The parts of the page, from top to bottom.
pub open spec fn parts(z: ZView) -> Seq<Part> {
    let items = if z.items@.len() > 0 {
        seq![Part::Items]
    } else {
        Seq::empty()
    };
    seq![Part::Meta, Part::Figures, Part::Tenders, Part::Drawer] + Seq::new(
        z.sheets@.len(),
        |k: int| Part::Sheet(k),
    ) + items + seq![Part::Tempo]
}

/// Whether a widget shows pairs of labels and values.
pub open spec fn shows_pairs(w: Widget, list: Seq<Pair>) -> bool {
    w matches Widget::KeyValues { title, items, across } && title is None && across == 1 && pairs(
        items@,
    ) == list
}

/// Whether a widget shows a part of the page.
pub open spec fn shows(w: Widget, p: Part, z: ZView) -> bool {
    match p {
        Part::Meta => shows_pairs(w, meta(z.report.session)),
        Part::Figures => w matches Widget::Metrics(m) && figures(m@) == day_figures(z.report),
        Part::Tenders => w matches Widget::Table(t) && t@ == tender_grid(z.report.tenders@),
        Part::Drawer => shows_pairs(w, drawer_pairs(z.report)),
        Part::Sheet(k) => w matches Widget::Table(t) && sheet_grid(z.sheets@[k]) == Some(t@),
        Part::Items => w matches Widget::Table(t) && t@ == item_grid(z.items@),
        Part::Tempo => w matches Widget::Group { title, boxed, widgets } && opt_text(title) == Some(
            "Till tempo"@,
        ) && boxed && widgets@.len() == 1 && shows_pairs(widgets@[0], tempo(z)),
    }
}

/// Whether a calendar has the session's days, and every count sheet adds up
/// within the range.
pub open spec fn is_printable(z: ZView) -> bool {
    is_dated(z.report.session) && forall|k: int|
        0 <= k < z.sheets@.len() ==> sheet_grid(#[trigger] z.sheets@[k]) is Some
}

fn pairs_widget(items: Vec<KeyValue>) -> (r: Widget)
    ensures
        shows_pairs(r, pairs(items@)),
{
    Widget::KeyValues { title: None, items, across: 1 }
}

fn make_widgets(z: &ZView) -> (r: Option<Vec<Widget>>)
    ensures
        match r {
            Some(ws) => is_printable(*z) && ws@.len() == parts(*z).len() && forall|i: int|
                0 <= i < ws@.len() ==> shows(#[trigger] ws@[i], parts(*z)[i], *z),
            None => !is_printable(*z),
        },
{
    let mut ws: Vec<Widget> = Vec::new();
    ws.push(pairs_widget(make_meta(&z.report.session)?));
    ws.push(Widget::Metrics(make_figures(&z.report)));
    ws.push(Widget::Table(tender_table(&z.report.tenders)));
    ws.push(pairs_widget(make_drawer(&z.report)));
    let ghost all = parts(*z);
    let mut k: usize = 0;
    while k < z.sheets.len()
        invariant
            k <= z.sheets.len(),
            all == parts(*z),
            is_dated(z.report.session),
            ws@.len() == 4 + k,
            forall|i: int| 0 <= i < ws@.len() ==> shows(#[trigger] ws@[i], all[i], *z),
            forall|i: int| 0 <= i < k ==> sheet_grid(#[trigger] z.sheets@[i]) is Some,
        decreases z.sheets.len() - k,
    {
        match sheet_table(&z.sheets[k]) {
            Some(table) => {
                assert(all[4 + k as int] == Part::Sheet(k as int));
                ws.push(Widget::Table(table));
            },
            None => {
                assert(sheet_grid(z.sheets@[k as int]) is None);
                return None;
            },
        }
        k = k + 1;
    }
    if z.items.len() > 0 {
        assert(all[ws@.len() as int] == Part::Items);
        ws.push(Widget::Table(item_table(&z.items)));
    }
    let mut inner: Vec<Widget> = Vec::new();
    inner.push(pairs_widget(make_tempo(z)));
    assert(all[ws@.len() as int] == Part::Tempo);
    ws.push(
        Widget::Group { title: Some("Till tempo".to_owned()), boxed: true, widgets: inner },
    );
    Some(ws)
}

impl ZReportDocument {
    /// Lay the Z out: from the counts stored at the close, so that it prints
    /// the same forever. Refused where an amount leaves the range or no
    /// calendar has a day of the session.
    pub fn build(&self, z: &ZView) -> (r: Result<Report, Error>)
        ensures
            match r {
                Ok(report) => {
                    let number = number_or_blank(opt_text(z.report.session.number));
                    &&& is_printable(*z)
                    &&& report.title@ == "Z Report"@
                    &&& opt_text(report.subtitle) == Some("Session "@ + number)
                    &&& opt_text(report.number) == Some(number)
                    &&& opt_text(report.file_name) == Some(
                        if number.len() == 0 {
                            "z-report"@
                        } else {
                            number
                        },
                    )
                    &&& report.orientation == Orientation::Portrait
                    &&& report.widgets@.len() == parts(*z).len()
                    &&& forall|i: int|
                        0 <= i < report.widgets@.len() ==> shows(
                            #[trigger] report.widgets@[i],
                            parts(*z)[i],
                            *z,
                        )
                },
                Err(e) => e@ == Refusal::Overflow && !is_printable(*z),
            },
    {
        let widgets = in_range(make_widgets(z))?;
        let number = show_or_blank(&z.report.session.number);
        let file_name = if number.as_str().unicode_len() == 0 {
            "z-report".to_owned()
        } else {
            number.clone()
        };
        Ok(
            Report {
                title: "Z Report".to_owned(),
                subtitle: Some(cat2("Session ", number.as_str())),
                number: Some(number.clone()),
                file_name: Some(file_name),
                orientation: Orientation::Portrait,
                widgets,
            },
        )
    }
}

} // verus!
