//! What a report is made of: titled tables, blocks and figures, as a renderer
//! takes them.

use crate::text::{opt_text, texts};
use vstd::prelude::*;

verus! {

/// How a column is set.
#[derive(Clone, Copy, Debug, PartialEq, Eq, Structural)]
pub enum ColumnKind {
    Text,
    Wide,
    Center,
    Number,
}

#[derive(Debug)]
pub struct Column {
    pub label: String,
    pub kind: ColumnKind,
}

/// What a column says.
pub type Head = (Seq<char>, ColumnKind);

pub open spec fn heads(columns: Seq<Column>) -> Seq<Head> {
    columns.map_values(|c: Column| (c.label@, c.kind))
}

impl Column {
    pub fn new(label: &str) -> (r: Column)
        ensures
            r.label@ == label@,
            r.kind == ColumnKind::Text,
    {
        Column { label: label.to_owned(), kind: ColumnKind::Text }
    }

    pub fn wide(label: &str) -> (r: Column)
        ensures
            r.label@ == label@,
            r.kind == ColumnKind::Wide,
    {
        Column { label: label.to_owned(), kind: ColumnKind::Wide }
    }

    pub fn center(label: &str) -> (r: Column)
        ensures
            r.label@ == label@,
            r.kind == ColumnKind::Center,
    {
        Column { label: label.to_owned(), kind: ColumnKind::Center }
    }

    pub fn number(label: &str) -> (r: Column)
        ensures
            r.label@ == label@,
            r.kind == ColumnKind::Number,
    {
        Column { label: label.to_owned(), kind: ColumnKind::Number }
    }
}

/// The colour of a row.
#[derive(Clone, Copy, Debug, PartialEq, Eq, Structural)]
pub enum RowTone {
    Blue,
    Amber,
    Violet,
    Green,
    Red,
}

#[derive(Debug)]
pub struct Row {
    pub cells: Vec<String>,
    pub tone: Option<RowTone>,
    pub strong: bool,
}

/// What a row says.
pub struct Line {
    pub cells: Seq<Seq<char>>,
    pub tone: Option<RowTone>,
    pub strong: bool,
}

impl View for Row {
    type V = Line;

    open spec fn view(&self) -> Line {
        Line { cells: texts(self.cells@), tone: self.tone, strong: self.strong }
    }
}

/// A row without colour or weight.
pub open spec fn plain(cells: Seq<Seq<char>>) -> Line {
    Line { cells, tone: None, strong: false }
}

pub open spec fn toned(cells: Seq<Seq<char>>, tone: RowTone, strong: bool) -> Line {
    Line { cells, tone: Some(tone), strong }
}

impl Row {
    pub fn new(cells: Vec<String>) -> (r: Row)
        ensures
            r@ == plain(texts(cells@)),
    {
        Row { cells, tone: None, strong: false }
    }

    pub fn toned(cells: Vec<String>, tone: RowTone, strong: bool) -> (r: Row)
        ensures
            r@ == toned(texts(cells@), tone, strong),
    {
        Row { cells, tone: Some(tone), strong }
    }
}

/// What rows say.
pub open spec fn lines(rows: Seq<Row>) -> Seq<Line> {
    rows.map_values(|r: Row| r@)
}

#[derive(Debug)]
pub struct Table {
    pub title: Option<String>,
    pub columns: Vec<Column>,
    pub rows: Vec<Row>,
    pub totals: Option<Vec<String>>,
}

/// What a table says.
pub struct Grid {
    pub title: Option<Seq<char>>,
    pub heads: Seq<Head>,
    pub lines: Seq<Line>,
    pub totals: Option<Seq<Seq<char>>>,
}

impl View for Table {
    type V = Grid;

    open spec fn view(&self) -> Grid {
        Grid {
            title: opt_text(self.title),
            heads: heads(self.columns@),
            lines: lines(self.rows@),
            totals: match self.totals {
                Some(t) => Some(texts(t@)),
                None => None,
            },
        }
    }
}

impl Table {
    pub fn new(columns: Vec<Column>) -> (r: Table)
        ensures
            r@ == (Grid {
                title: None,
                heads: heads(columns@),
                lines: Seq::empty(),
                totals: None,
            }),
    {
        let r = Table { title: None, columns, rows: Vec::new(), totals: None };
        assert(lines(r.rows@) =~= Seq::<Line>::empty());
        r
    }

    /// Append a row.
    pub fn add(&mut self, row: Row)
        ensures
            final(self)@ == (Grid { lines: old(self)@.lines.push(row@), ..old(self)@ }),
    {
        let ghost before = self.rows@;
        self.rows.push(row);
        assert(lines(self.rows@) =~= lines(before).push(row@));
    }

    /// Set the row of totals.
    pub fn set_totals(&mut self, totals: Vec<String>)
        ensures
            final(self)@ == (Grid { totals: Some(texts(totals@)), ..old(self)@ }),
    {
        self.totals = Some(totals);
    }

    /// Set the title.
    pub fn set_title(&mut self, title: &str)
        ensures
            final(self)@ == (Grid { title: Some(title@), ..old(self)@ }),
    {
        self.title = Some(title.to_owned());
    }
}

/// A labelled value.
#[derive(Debug)]
pub struct KeyValue {
    pub label: String,
    pub value: String,
}

/// What a labelled value says.
pub type Pair = (Seq<char>, Seq<char>);

impl View for KeyValue {
    type V = (Seq<char>, Seq<char>);

    open spec fn view(&self) -> (Seq<char>, Seq<char>) {
        (self.label@, self.value@)
    }
}

pub open spec fn pairs(items: Seq<KeyValue>) -> Seq<Pair> {
    items.map_values(|k: KeyValue| k@)
}

impl KeyValue {
    pub fn new(label: &str, value: String) -> (r: KeyValue)
        ensures
            r@ == (label@, value@),
    {
        KeyValue { label: label.to_owned(), value }
    }
}

/// A figure with a caption.
#[derive(Debug)]
pub struct Metric {
    pub label: String,
    pub value: String,
    pub caption: Option<String>,
}

/// A place to sign.
#[derive(Debug)]
pub struct Signature {
    pub label: String,
}

#[derive(Clone, Copy, Debug, PartialEq, Eq, Structural)]
pub enum SpaceSize {
    Small,
    Medium,
}

#[derive(Clone, Copy, Debug, PartialEq, Eq, Structural)]
pub enum TextStyle {
    Small,
}

#[derive(Clone, Copy, Debug, PartialEq, Eq, Structural)]
pub enum CalloutStyle {
    Muted,
}

#[derive(Clone, Copy, Debug, PartialEq, Eq, Structural)]
pub enum Orientation {
    Portrait,
    Landscape,
}

#[derive(Clone, Copy, Debug, PartialEq, Eq, Structural)]
pub enum Align {
    Start,
    Center,
    End,
}

/// Where a report can go.
#[derive(Clone, Copy, Debug, PartialEq, Eq, Structural)]
pub enum ReportOutput {
    Pdf,
    Excel,
    Table,
}

/// How closely a report is set.
#[derive(Clone, Copy, Debug, PartialEq, Eq, Structural)]
pub enum ReportFormat {
    Standard,
    Compact,
}

/// A piece of a page.
#[derive(Debug)]
pub enum Widget {
    Spacer(SpaceSize),
    Text { text: String, style: TextStyle },
    KeyValues { title: Option<String>, items: Vec<KeyValue>, across: u32 },
    Table(Table),
    Metrics(Vec<Metric>),
    Callout { look: CalloutStyle, title: Option<String>, body: String },
    Signatures(Vec<Signature>),
    Group { title: Option<String>, boxed: bool, widgets: Vec<Widget> },
    Columns { columns: Vec<Vec<Widget>>, widths: Vec<u32> },
}

/// A report, ready to be rendered.
#[derive(Debug)]
pub struct Report {
    pub title: String,
    pub subtitle: Option<String>,
    pub number: Option<String>,
    pub file_name: Option<String>,
    pub orientation: Orientation,
    pub widgets: Vec<Widget>,
}

/// Whether a report is a single table under a title and a subtitle.
pub open spec fn is_table_report(
    r: Report,
    title: Seq<char>,
    subtitle: Seq<char>,
    orientation: Orientation,
    grid: Grid,
) -> bool {
    &&& r.title@ == title
    &&& opt_text(r.subtitle) == Some(subtitle)
    &&& r.number is None
    &&& r.file_name is None
    &&& r.orientation == orientation
    &&& r.widgets@.len() == 1
    &&& r.widgets@[0] matches Widget::Table(t) && t@ == grid
}

impl Report {
    /// A report of a single table.
    pub fn of_table(title: &str, subtitle: String, orientation: Orientation, table: Table) -> (r:
        Report)
        ensures
            is_table_report(r, title@, subtitle@, orientation, table@),
    {
        let mut widgets: Vec<Widget> = Vec::new();
        widgets.push(Widget::Table(table));
        Report {
            title: title.to_owned(),
            subtitle: Some(subtitle),
            number: None,
            file_name: None,
            orientation,
            widgets,
        }
    }
}

} // verus!
