//! The shape of a trade document: what an order, a delivery note or an invoice
//! looks like on paper.
//!
//! Every document is the same object with different words: who it is with,
//! what identifies it, the lines, what it comes to, and the terms. The layout
//! lives here once and each document supplies the words. The letterhead is the
//! renderer's.

use crate::date::{named_text, Date};
use crate::decimal::{fixed_text, normalized, plain_text, Decimal};
use crate::figures::{grouped, grouped_text};
use crate::report::{
    heads, pairs, plain, Align, CalloutStyle, Column, ColumnKind, KeyValue, Orientation, Report,
    Row, Signature, SpaceSize, Table, TextStyle, Widget,
};
use crate::text::{
    blank, cat2, cat3, is_blank, join_lines, joined, lines_of, opt_text, push_lines, texts,
};
use vstd::prelude::*;

verus! {

/// One document, in the terms the layout needs. What is optional and empty
/// does not appear.
#[derive(Debug)]
pub struct Document {
    /// What the document is, e.g. "Purchase Order".
    pub title: String,
    /// The document's own number; nothing before it is issued.
    pub number: Option<String>,
    /// The lifecycle state, shown next to the number.
    pub status: String,
    /// The heading over the party block, e.g. "Supplier" or "Bill to".
    pub party_label: &'static str,
    /// The party's name and address lines.
    pub party: Vec<String>,
    /// A second block beside the party, e.g. "Deliver to".
    pub second_label: Option<&'static str>,
    pub second: Vec<String>,
    /// Identifying fields: date, reference, currency, terms.
    pub meta: Vec<KeyValue>,
    pub columns: Vec<Column>,
    pub rows: Vec<Vec<String>>,
    /// Subtotal, discounts, tax, total.
    pub totals: Vec<KeyValue>,
    /// Terms and conditions, printed as a boxed note.
    pub terms: Option<String>,
    /// A free-text memo.
    pub memo: Option<String>,
    /// The sign-off band. Empty for documents nobody signs.
    pub signatures: Vec<Signature>,
}

/// A part of the page.
pub enum Block {
    /// The party on the left and the identifying fields on the right.
    Head,
    Gap(SpaceSize),
    /// The table of lines.
    Lines,
    /// Several totals, under the amounts they sum.
    Totals,
    Memo,
    Terms,
    Signatures,
}

pub open spec fn filled(t: Option<String>) -> bool {
    match t {
        Some(t) => !is_blank(t@),
        None => false,
    }
}

/// The head, where there is anything in it.
pub open spec fn head_blocks(d: Document) -> Seq<Block> {
    if d.party@.len() > 0 || (d.second_label is Some && d.second@.len() > 0) || d.meta@.len() > 0 {
        seq![Block::Head, Block::Gap(SpaceSize::Small)]
    } else {
        Seq::empty()
    }
}

/// The totals, where there are several.
pub open spec fn totals_blocks(d: Document) -> Seq<Block> {
    if d.totals@.len() > 1 {
        seq![Block::Totals]
    } else {
        Seq::empty()
    }
}

pub open spec fn memo_blocks(d: Document) -> Seq<Block> {
    if filled(d.memo) {
        seq![Block::Gap(SpaceSize::Small), Block::Memo]
    } else {
        Seq::empty()
    }
}

pub open spec fn terms_blocks(d: Document) -> Seq<Block> {
    if filled(d.terms) {
        seq![Block::Gap(SpaceSize::Small), Block::Terms]
    } else {
        Seq::empty()
    }
}

pub open spec fn signature_blocks(d: Document) -> Seq<Block> {
    if d.signatures@.len() > 0 {
        seq![Block::Gap(SpaceSize::Medium), Block::Signatures]
    } else {
        Seq::empty()
    }
}

/// The parts of a document's page, from top to bottom.
pub open spec fn layout(d: Document) -> Seq<Block> {
    head_blocks(d) + seq![Block::Lines] + totals_blocks(d) + memo_blocks(d) + terms_blocks(d)
        + signature_blocks(d)
}

/// A titled box around a run of lines.
pub open spec fn is_lines_block(w: Widget, label: Seq<char>, content: Seq<String>) -> bool {
    w matches Widget::Group { title, boxed, widgets } && opt_text(title) == Some(label) && boxed
        && widgets@.len() == 1 && (widgets@[0] matches Widget::KeyValues {
        title: inner,
        items,
        across,
    } && inner is None && across == 1 && pairs(items@) == seq![(""@, joined(texts(content)))])
}

/// The left side of the head: the party, and the second block under it.
pub open spec fn is_left(ws: Seq<Widget>, d: Document) -> bool {
    let party: int = if d.party@.len() > 0 {
        1
    } else {
        0
    };
    let second = d.second_label is Some && d.second@.len() > 0;
    &&& ws.len() == party + if second {
        2int
    } else {
        0
    }
    &&& party == 1 ==> is_lines_block(ws[0], d.party_label@, d.party@)
    &&& second ==> ws[party] == Widget::Spacer(SpaceSize::Small) && is_lines_block(
        ws[party + 1],
        d.second_label->0@,
        d.second@,
    )
}

/// The right side of the head: the identifying fields in a box.
pub open spec fn is_right(ws: Seq<Widget>, meta: Vec<KeyValue>) -> bool {
    if meta@.len() == 0 {
        ws.len() == 0
    } else {
        &&& ws.len() == 1
        &&& ws[0] matches Widget::Group { title, boxed, widgets } && title is None && boxed
            && widgets@.len() == 1 && widgets@[0] == (Widget::KeyValues {
            title: None,
            items: meta,
            across: 1,
        })
    }
}

/// The one total as a row across the foot of the lines: its label first, its
/// value last, nothing between.
pub open spec fn footer(total: (Seq<char>, Seq<char>), width: nat) -> Seq<Seq<char>> {
    let cells = if width <= 1 {
        Seq::empty()
    } else {
        seq![total.0] + Seq::new((width - 2) as nat, |i: int| Seq::<char>::empty())
    };
    cells.push(total.1)
}

/// The rows of a table of lines.
pub open spec fn is_body(rows: Seq<Row>, given: Seq<Vec<String>>) -> bool {
    rows.len() == given.len() && forall|i: int|
        0 <= i < given.len() ==> (#[trigger] rows[i])@ == plain(texts(given[i]@))
}

/// The table of lines. A single total rides in its foot.
pub open spec fn is_lines(w: Widget, d: Document) -> bool {
    w matches Widget::Table(t) && t.title is None && t.columns == d.columns && is_body(
        t.rows@,
        d.rows@,
    ) && (match t.totals {
        Some(cells) => d.totals@.len() == 1 && texts(cells@) == footer(
            d.totals@[0]@,
            d.columns@.len(),
        ),
        None => d.totals@.len() != 1,
    })
}

/// Several totals in a table of their own, on the right.
pub open spec fn is_totals(w: Widget, totals: Seq<KeyValue>) -> bool {
    w matches Widget::Columns { columns, widths } && widths@ == seq![2u32, 1u32] && columns@.len()
        == 2 && columns@[0]@.len() == 0 && columns@[1]@.len() == 1 && (columns@[1]@[0]
        matches Widget::Table(t) && t.title is None && t.totals is None && t@.heads == seq![
        (""@, ColumnKind::Wide),
        (""@, ColumnKind::Number),
    ] && t.rows@.len() == totals.len() && forall|i: int|
        0 <= i < totals.len() ==> (#[trigger] t.rows@[i])@ == plain(
            seq![totals[i].label@, totals[i].value@],
        ))
}

/// Whether a widget renders a part of the page.
pub open spec fn renders(w: Widget, b: Block, d: Document) -> bool {
    match b {
        Block::Head => w matches Widget::Columns { columns, widths } && widths@ == seq![
            3u32,
            2u32,
        ] && columns@.len() == 2 && is_left(columns@[0]@, d) && is_right(columns@[1]@, d.meta),
        Block::Gap(size) => w == Widget::Spacer(size),
        Block::Lines => is_lines(w, d),
        Block::Totals => is_totals(w, d.totals@),
        Block::Memo => w matches Widget::Text { text, style } && Some(text) == d.memo && style
            == TextStyle::Small,
        Block::Terms => w matches Widget::Callout { look, title, body } && look
            == CalloutStyle::Muted && opt_text(title) == Some("Terms and conditions"@) && Some(body)
            == d.terms,
        Block::Signatures => w == Widget::Signatures(d.signatures),
    }
}

/// The heading: a document without a number must not look like it has one.
pub open spec fn heading(title: Seq<char>, number: Option<Seq<char>>) -> Seq<char> {
    match number {
        Some(n) => title + " "@ + n,
        None => title + " (unissued)"@,
    }
}

/// A titled box.
fn block(label: &str, body: Widget) -> (r: Widget)
    ensures
        r matches Widget::Group { title, boxed, widgets } && opt_text(title) == Some(label@)
            && boxed && widgets@ == seq![body],
{
    let mut widgets: Vec<Widget> = Vec::new();
    widgets.push(body);
    Widget::Group { title: Some(label.to_owned()), boxed: true, widgets }
}

/// A run of lines, carried as one pair without a label.
fn lines_widget(content: &Vec<String>) -> (r: Widget)
    ensures
        r matches Widget::KeyValues { title, items, across } && title is None && across == 1
            && pairs(items@) == seq![(""@, joined(texts(content@)))],
{
    let mut items: Vec<KeyValue> = Vec::new();
    let pair = KeyValue::new("", join_lines(content));
    items.push(pair);
    assert(pairs(items@) =~= seq![pair@]);
    Widget::KeyValues { title: None, items, across: 1 }
}

fn left_side(d: &Document) -> (r: Vec<Widget>)
    ensures
        is_left(r@, *d),
{
    let mut left: Vec<Widget> = Vec::new();
    if d.party.len() > 0 {
        left.push(block(d.party_label, lines_widget(&d.party)));
    }
    if let Some(label) = d.second_label {
        if d.second.len() > 0 {
            left.push(Widget::Spacer(SpaceSize::Small));
            left.push(block(label, lines_widget(&d.second)));
        }
    }
    left
}

fn foot(totals: &Vec<KeyValue>, width: usize) -> (r: Option<Vec<String>>)
    ensures
        match r {
            Some(cells) => totals@.len() == 1 && texts(cells@) == footer(
                totals@[0]@,
                width as nat,
            ),
            None => totals@.len() != 1,
        },
{
    if totals.len() != 1 {
        return None;
    }
    let mut cells: Vec<String> = Vec::new();
    if width > 1 {
        cells.push(totals[0].label.clone());
        assert(texts(cells@) =~= seq![totals@[0].label@]);
        let mut i: usize = 1;
        while i < width - 1
            invariant
                1 <= i <= width - 1,
                totals@.len() == 1,
                texts(cells@) == seq![totals@[0].label@] + Seq::new(
                    (i - 1) as nat,
                    |k: int| Seq::<char>::empty(),
                ),
            decreases width - i,
        {
            let ghost before = cells@;
            let empty = String::new();
            cells.push(empty);
            assert(texts(cells@) =~= texts(before).push(Seq::<char>::empty()));
            assert(texts(cells@) =~= seq![totals@[0].label@] + Seq::new(
                i as nat,
                |k: int| Seq::<char>::empty(),
            ));
            i = i + 1;
        }
    }
    let ghost before = cells@;
    cells.push(totals[0].value.clone());
    assert(texts(cells@) =~= texts(before).push(totals@[0].value@));
    assert(texts(cells@) =~= footer(totals@[0]@, width as nat));
    Some(cells)
}

fn body_rows(rows: Vec<Vec<String>>) -> (r: Vec<Row>)
    ensures
        is_body(r@, rows@),
{
    let ghost all = rows@;
    let mut rest = rows;
    let mut out: Vec<Row> = Vec::new();
    while rest.len() > 0
        invariant
            rest@.len() + out@.len() == all.len(),
            rest@ == all.skip(out@.len() as int),
            forall|i: int| 0 <= i < out@.len() ==> (#[trigger] out@[i])@ == plain(texts(all[i]@)),
        decreases rest.len(),
    {
        let cells = rest.remove(0);
        assert(cells == all[out@.len() as int]);
        out.push(Row::new(cells));
        assert(rest@ =~= all.skip(out@.len() as int));
    }
    out
}

fn totals_table(totals: &Vec<KeyValue>) -> (t: Table)
    ensures
        t.title is None,
        t.totals is None,
        t@.heads == seq![(""@, ColumnKind::Wide), (""@, ColumnKind::Number)],
        t.rows@.len() == totals@.len(),
        forall|i: int|
            0 <= i < totals@.len() ==> (#[trigger] t.rows@[i])@ == plain(
                seq![totals@[i].label@, totals@[i].value@],
            ),
{
    let columns = vec![Column::wide(""), Column::number("")];
    assert(heads(columns@) =~= seq![
        (""@, ColumnKind::Wide),
        (""@, ColumnKind::Number),
    ]);
    let mut rows: Vec<Row> = Vec::new();
    let mut i: usize = 0;
    while i < totals.len()
        invariant
            i <= totals.len(),
            rows@.len() == i,
            forall|j: int|
                0 <= j < i ==> (#[trigger] rows@[j])@ == plain(
                    seq![totals@[j].label@, totals@[j].value@],
                ),
        decreases totals.len() - i,
    {
        let cells = vec![totals[i].label.clone(), totals[i].value.clone()];
        assert(texts(cells@) =~= seq![
            totals@[i as int].label@,
            totals@[i as int].value@,
        ]);
        rows.push(Row::new(cells));
        i = i + 1;
    }
    Table { title: None, columns, rows, totals: None }
}

fn right_side(meta: Vec<KeyValue>) -> (r: Vec<Widget>)
    ensures
        is_right(r@, meta),
{
    let mut right: Vec<Widget> = Vec::new();
    if meta.len() > 0 {
        let mut inner: Vec<Widget> = Vec::new();
        inner.push(Widget::KeyValues { title: None, items: meta, across: 1 });
        right.push(Widget::Group { title: None, boxed: true, widgets: inner });
    }
    right
}

/// Two columns of widgets with their widths.
fn beside(left: Vec<Widget>, right: Vec<Widget>, a: u32, b: u32) -> (r: Widget)
    ensures
        r matches Widget::Columns { columns, widths } && widths@ == seq![a, b] && columns@.len()
            == 2 && columns@[0] == left && columns@[1] == right,
{
    let columns = vec![left, right];
    let widths: Vec<u32> = vec![a, b];
    Widget::Columns { columns, widths }
}

fn totals_widget(totals: &Vec<KeyValue>) -> (r: Widget)
    ensures
        is_totals(r, totals@),
{
    let mut side: Vec<Widget> = Vec::new();
    side.push(Widget::Table(totals_table(totals)));
    let none: Vec<Widget> = Vec::new();
    beside(none, side, 2, 1)
}

/// Whether widgets render the parts of a page one by one.
#[verifier::opaque]
pub open spec fn rendered(ws: Seq<Widget>, parts: Seq<Block>, d: Document) -> bool {
    ws.len() == parts.len() && forall|i: int|
        0 <= i < parts.len() ==> renders(#[trigger] ws[i], parts[i], d)
}

/// Append a widget that renders the next part.
fn put(
    widgets: &mut Vec<Widget>,
    w: Widget,
    Ghost(parts): Ghost<Seq<Block>>,
    Ghost(next): Ghost<Block>,
    Ghost(d): Ghost<Document>,
)
    requires
        rendered(old(widgets)@, parts, d),
        renders(w, next, d),
    ensures
        rendered(final(widgets)@, parts + seq![next], d),
{
    reveal(rendered);
    widgets.push(w);
}

fn put_gap(
    widgets: &mut Vec<Widget>,
    size: SpaceSize,
    Ghost(parts): Ghost<Seq<Block>>,
    Ghost(d): Ghost<Document>,
)
    requires
        rendered(old(widgets)@, parts, d),
    ensures
        rendered(final(widgets)@, parts + seq![Block::Gap(size)], d),
{
    put(widgets, Widget::Spacer(size), Ghost(parts), Ghost(Block::Gap(size)), Ghost(d));
}

fn put_head(
    widgets: &mut Vec<Widget>,
    left: Vec<Widget>,
    right: Vec<Widget>,
    Ghost(d): Ghost<Document>,
)
    requires
        rendered(old(widgets)@, Seq::empty(), d),
        is_left(left@, d),
        is_right(right@, d.meta),
    ensures
        rendered(final(widgets)@, head_blocks(d), d),
{
    if left.len() > 0 || right.len() > 0 {
        let ghost head = Seq::<Block>::empty() + seq![Block::Head];
        put(
            widgets,
            beside(left, right, 3, 2),
            Ghost(Seq::empty()),
            Ghost(Block::Head),
            Ghost(d),
        );
        put_gap(widgets, SpaceSize::Small, Ghost(head), Ghost(d));
        assert(head + seq![Block::Gap(SpaceSize::Small)] =~= head_blocks(d));
    }
}

fn put_totals(
    widgets: &mut Vec<Widget>,
    totals: &Vec<KeyValue>,
    Ghost(parts): Ghost<Seq<Block>>,
    Ghost(d): Ghost<Document>,
)
    requires
        rendered(old(widgets)@, parts, d),
        *totals == d.totals,
    ensures
        rendered(final(widgets)@, parts + totals_blocks(d), d),
{
    if totals.len() > 1 {
        put(widgets, totals_widget(totals), Ghost(parts), Ghost(Block::Totals), Ghost(d));
    } else {
        assert(parts + totals_blocks(d) =~= parts);
    }
}

fn put_memo(
    widgets: &mut Vec<Widget>,
    memo: Option<String>,
    Ghost(parts): Ghost<Seq<Block>>,
    Ghost(d): Ghost<Document>,
)
    requires
        rendered(old(widgets)@, parts, d),
        memo == d.memo,
    ensures
        rendered(final(widgets)@, parts + memo_blocks(d), d),
{
    if let Some(text) = memo {
        if !blank(text.as_str()) {
            let ghost gap = parts + seq![Block::Gap(SpaceSize::Small)];
            put_gap(widgets, SpaceSize::Small, Ghost(parts), Ghost(d));
            let note = Widget::Text { text, style: TextStyle::Small };
            put(widgets, note, Ghost(gap), Ghost(Block::Memo), Ghost(d));
            assert(gap + seq![Block::Memo] =~= parts + memo_blocks(d));
            return ;
        }
    }
    assert(parts + memo_blocks(d) =~= parts);
}

fn put_terms(
    widgets: &mut Vec<Widget>,
    terms: Option<String>,
    Ghost(parts): Ghost<Seq<Block>>,
    Ghost(d): Ghost<Document>,
)
    requires
        rendered(old(widgets)@, parts, d),
        terms == d.terms,
    ensures
        rendered(final(widgets)@, parts + terms_blocks(d), d),
{
    if let Some(body) = terms {
        if !blank(body.as_str()) {
            let ghost gap = parts + seq![Block::Gap(SpaceSize::Small)];
            put_gap(widgets, SpaceSize::Small, Ghost(parts), Ghost(d));
            let callout = Widget::Callout {
                look: CalloutStyle::Muted,
                title: Some("Terms and conditions".to_owned()),
                body,
            };
            put(widgets, callout, Ghost(gap), Ghost(Block::Terms), Ghost(d));
            assert(gap + seq![Block::Terms] =~= parts + terms_blocks(d));
            return ;
        }
    }
    assert(parts + terms_blocks(d) =~= parts);
}

fn put_signatures(
    widgets: &mut Vec<Widget>,
    signatures: Vec<Signature>,
    Ghost(parts): Ghost<Seq<Block>>,
    Ghost(d): Ghost<Document>,
)
    requires
        rendered(old(widgets)@, parts, d),
        signatures == d.signatures,
    ensures
        rendered(final(widgets)@, parts + signature_blocks(d), d),
{
    if signatures.len() > 0 {
        let ghost gap = parts + seq![Block::Gap(SpaceSize::Medium)];
        put_gap(widgets, SpaceSize::Medium, Ghost(parts), Ghost(d));
        put(
            widgets,
            Widget::Signatures(signatures),
            Ghost(gap),
            Ghost(Block::Signatures),
            Ghost(d),
        );
        assert(gap + seq![Block::Signatures] =~= parts + signature_blocks(d));
    } else {
        assert(parts + signature_blocks(d) =~= parts);
    }
}

impl Document {
    /// Assemble the report. Wide tables of lines go landscape; the file is
    /// named after the document's number, where it has one.
    pub fn into_report(self) -> (r: Report)
        ensures
            r.title@ == heading(self.title@, opt_text(self.number)),
            opt_text(r.subtitle) == Some(self.status@),
            r.number is None,
            opt_text(r.file_name) == opt_text(self.number),
            r.orientation == if self.columns@.len() > 7 {
                Orientation::Landscape
            } else {
                Orientation::Portrait
            },
            r.widgets@.len() == layout(self).len(),
            forall|i: int|
                0 <= i < layout(self).len() ==> renders(
                    #[trigger] r.widgets@[i],
                    layout(self)[i],
                    self,
                ),
    {
        let ghost d = self;
        let orientation = if self.columns.len() > 7 {
            Orientation::Landscape
        } else {
            Orientation::Portrait
        };
        let title = match &self.number {
            Some(n) => cat3(self.title.as_str(), " ", n.as_str()),
            None => cat2(self.title.as_str(), " (unissued)"),
        };
        let file_name = match &self.number {
            Some(n) => Some(n.clone()),
            None => None,
        };
        let mut widgets: Vec<Widget> = Vec::new();
        assert(rendered(widgets@, Seq::empty(), d)) by {
            reveal(rendered);
        }
        let left = left_side(&self);
        let right = right_side(self.meta);
        put_head(&mut widgets, left, right, Ghost(d));
        let ghost head = head_blocks(d);
        let footer = foot(&self.totals, self.columns.len());
        let rows = body_rows(self.rows);
        let table = Table { title: None, columns: self.columns, rows, totals: footer };
        put(&mut widgets, Widget::Table(table), Ghost(head), Ghost(Block::Lines), Ghost(d));
        let ghost body = head + seq![Block::Lines];
        put_totals(&mut widgets, &self.totals, Ghost(body), Ghost(d));
        let ghost summed = body + totals_blocks(d);
        put_memo(&mut widgets, self.memo, Ghost(summed), Ghost(d));
        let ghost noted = summed + memo_blocks(d);
        put_terms(&mut widgets, self.terms, Ghost(noted), Ghost(d));
        let ghost agreed = noted + terms_blocks(d);
        put_signatures(&mut widgets, self.signatures, Ghost(agreed), Ghost(d));
        proof {
            reveal(rendered);
        }
        Report {
            title,
            subtitle: Some(self.status),
            number: None,
            file_name,
            orientation,
            widgets,
        }
    }
}

/// A money column: right-aligned, because digits only compare when their
/// places line up.
pub fn money_column(label: &str) -> (r: Column)
    ensures
        r.label@ == label@,
        r.kind == ColumnKind::Number,
{
    Column::number(label)
}

/// Amounts as they appear on a document: always two places, and always a
/// figure.
pub fn amount(value: Decimal) -> (r: String)
    ensures
        r@ == fixed_text(value@, 2),
{
    value.to_fixed(2)
}

/// A date on a document: `15-Jul-2026`. The month is named, so that it cannot
/// be read two ways.
pub fn date(value: Date) -> (r: String)
    ensures
        r@ == named_text(value@),
{
    value.named()
}

/// A date that a record may not have set yet.
pub fn date_opt(value: Option<Date>) -> (r: String)
    ensures
        r@ == (match value {
            Some(d) => named_text(d@),
            None => Seq::empty(),
        }),
{
    match value {
        Some(d) => date(d),
        None => String::new(),
    }
}

/// Quantities without the zeros at their end: `10`, not `10.0000`.
pub fn quantity(value: Decimal) -> (r: String)
    ensures
        r@ == plain_text(normalized(value@)),
{
    value.normalize().text()
}

/// A total line, e.g. `Total  1,240.00`.
pub fn total_line(label: &str, value: Decimal) -> (r: KeyValue)
    ensures
        r@ == (label@, grouped_text(value@, 2)),
{
    KeyValue::new(label, grouped(value))
}

pub open spec fn opt_lines(line: Option<&str>) -> Seq<Seq<char>> {
    match line {
        Some(l) => lines_of(l@),
        None => Seq::empty(),
    }
}

/// The address block of a party: its name, then whatever contact lines it has.
pub fn address_block(name: &str, lines: [Option<&str>; 4]) -> (r: Vec<String>)
    ensures
        texts(r@) == seq![name@] + opt_lines(lines@[0]) + opt_lines(lines@[1]) + opt_lines(
            lines@[2],
        ) + opt_lines(lines@[3]),
{
    let mut out: Vec<String> = Vec::new();
    out.push(name.to_owned());
    assert(texts(out@) =~= seq![name@]);
    push_opt(&mut out, lines[0]);
    push_opt(&mut out, lines[1]);
    push_opt(&mut out, lines[2]);
    push_opt(&mut out, lines[3]);
    out
}

fn push_opt(out: &mut Vec<String>, line: Option<&str>)
    ensures
        texts(final(out)@) == texts(old(out)@) + opt_lines(line),
{
    if let Some(l) = line {
        push_lines(out, l);
    } else {
        assert(texts(out@) + Seq::<Seq<char>>::empty() =~= texts(out@));
    }
}

/// Where the totals of a document align.
pub const AMOUNT_ALIGN: Align = Align::End;

/// A grouped note, for documents that need one under the lines.
pub fn note(title: &str, body: &str) -> (r: Widget)
    ensures
        r matches Widget::Group { title: t, boxed, widgets } && opt_text(t) == Some(title@) && boxed
            && widgets@.len() == 1 && (widgets@[0] matches Widget::Text { text, style } && text@
            == body@ && style == TextStyle::Small),
{
    block(title, Widget::Text { text: body.to_owned(), style: TextStyle::Small })
}

} // verus!
