//! What sold, by item and by description.

use super::{find_kind_within, kind_within, PosQueries};
use crate::clock::Span;
use crate::date::{opt_day, Day};
use crate::decimal::{negated, opt, worth, zero, Decimal, Num};
use crate::error::{in_range, refusal, Error, Refusal};
use crate::scm::inventory::item::{find_item_by_id, item_id, Item};
use crate::scm::pos::sale::{Book, LineFacts, OrderFacts, OrderKind, SaleService};
use crate::scm::pos::takings::{find_kind, kind_in};
use crate::search::first_where;
use crate::sort::{arrange, arranged, Ordered};
use crate::sums::{
    difference_of, keys_of, keys_to, lemma_total_push, picked, picked_to, sum_of, total,
};
use crate::text::{contains_text, same, texts};
use vstd::prelude::*;

verus! {

/// One item's sales over a window.
#[derive(Debug)]
pub struct ItemSalesRow {
    pub item_id: u128,
    pub sku: String,
    pub name: String,
    pub qty_sold: Decimal,
    pub qty_refunded: Decimal,
    /// Net takings for the item, tax included.
    pub gross: Decimal,
    pub tax: Decimal,
    /// The takings without the tax inside them.
    pub net: Decimal,
}

/// What an item's sales say.
pub struct ItemFacts {
    pub item_id: u128,
    pub sku: Seq<char>,
    pub name: Seq<char>,
    pub qty_sold: Num,
    pub qty_refunded: Num,
    pub gross: Num,
    pub tax: Num,
    pub net: Num,
}

impl View for ItemSalesRow {
    type V = ItemFacts;

    open spec fn view(&self) -> ItemFacts {
        ItemFacts {
            item_id: self.item_id,
            sku: self.sku@,
            name: self.name@,
            qty_sold: self.qty_sold@,
            qty_refunded: self.qty_refunded@,
            gross: self.gross@,
            tax: self.tax@,
            net: self.net@,
        }
    }
}

#[derive(Debug)]
pub struct ItemSalesView {
    pub rows: Vec<ItemSalesRow>,
    pub span: Span,
    pub gross: Decimal,
    pub tax: Decimal,
}

impl Ordered for ItemSalesRow {
    /// The item that took most stands first.
    open spec fn precedes(a: Self, b: Self) -> bool {
        worth(b.gross@) < worth(a.gross@)
    }

    fn goes_before(&self, other: &Self) -> (r: bool) {
        other.gross.less(&self.gross)
    }
}

/// Whether a line was sold or refunded in the window.
pub open spec fn line_within(orders: Seq<OrderFacts>, from: Option<Day>, to: Option<Day>) -> spec_fn(
    LineFacts,
) -> bool {
    |l: LineFacts| kind_within(orders, l.order_id, from, to) is Some
}

/// Whether a line sold, or refunded, an item in the window.
pub open spec fn line_as(
    orders: Seq<OrderFacts>,
    kind: OrderKind,
    item: u128,
    from: Option<Day>,
    to: Option<Day>,
) -> spec_fn(LineFacts) -> bool {
    |l: LineFacts|
        l.item_id == item && kind_within(orders, l.order_id, from, to) == Some(kind)
}

pub open spec fn its_item() -> spec_fn(LineFacts) -> u128 {
    |l: LineFacts| l.item_id
}

pub open spec fn its_qty() -> spec_fn(LineFacts) -> Num {
    |l: LineFacts| l.qty
}

pub open spec fn its_net() -> spec_fn(LineFacts) -> Num {
    |l: LineFacts| l.net
}

pub open spec fn its_tax() -> spec_fn(LineFacts) -> Num {
    |l: LineFacts| l.tax_amount
}

/// The items that were sold or refunded in a window.
pub open spec fn items_within(book: Book, from: Option<Day>, to: Option<Day>) -> Seq<u128> {
    keys_of(book.lines, line_within(book.orders, from, to), its_item())
}

/// How much of an item was sold, or refunded, in a window.
pub open spec fn item_qty(
    book: Book,
    kind: OrderKind,
    item: u128,
    from: Option<Day>,
    to: Option<Day>,
) -> Option<Num> {
    total(picked(book.lines, line_as(book.orders, kind, item, from, to), its_qty()))
}

/// What `f` says of an item over the first `n` lines: what its sales add, less
/// what its refunds take.
pub open spec fn item_net_to(
    book: Book,
    item: u128,
    from: Option<Day>,
    to: Option<Day>,
    f: spec_fn(LineFacts) -> Num,
    n: nat,
) -> Option<Num>
    decreases n,
{
    if n == 0 {
        Some(zero())
    } else {
        let l = book.lines[n - 1];
        let rest = item_net_to(book, item, from, to, f, (n - 1) as nat);
        if l.item_id != item {
            rest
        } else {
            match kind_within(book.orders, l.order_id, from, to) {
                Some(OrderKind::Sale) => sum_of(rest, Some(f(l))),
                Some(OrderKind::Refund) => difference_of(rest, Some(f(l))),
                None => rest,
            }
        }
    }
}

pub open spec fn item_gross(book: Book, item: u128, from: Option<Day>, to: Option<Day>) -> Option<
    Num,
> {
    item_net_to(book, item, from, to, its_net(), book.lines.len())
}

pub open spec fn item_tax(book: Book, item: u128, from: Option<Day>, to: Option<Day>) -> Option<Num> {
    item_net_to(book, item, from, to, its_tax(), book.lines.len())
}

/// An item's sales over a window; `None` where a figure leaves the range.
pub open spec fn item_row(
    book: Book,
    items: Seq<Item>,
    item: u128,
    from: Option<Day>,
    to: Option<Day>,
) -> Option<ItemFacts> {
    let found = first_where(items, item_id(item));
    match (
        item_qty(book, OrderKind::Sale, item, from, to),
        item_qty(book, OrderKind::Refund, item, from, to),
        item_gross(book, item, from, to),
        item_tax(book, item, from, to),
        difference_of(item_gross(book, item, from, to), item_tax(book, item, from, to)),
    ) {
        (Some(qty_sold), Some(qty_refunded), Some(gross), Some(tax), Some(net)) => Some(
            ItemFacts {
                item_id: item,
                sku: match found {
                    Some(i) => i.sku@,
                    None => ""@,
                },
                name: match found {
                    Some(i) => i.name@,
                    None => ""@,
                },
                qty_sold,
                qty_refunded,
                gross,
                tax,
                net,
            },
        ),
        _ => None,
    }
}

/// What the first `n` items took together, and the tax inside it.
pub open spec fn items_total_to(
    book: Book,
    list: Seq<u128>,
    from: Option<Day>,
    to: Option<Day>,
    tax: bool,
    n: nat,
) -> Option<Num>
    decreases n,
{
    if n == 0 {
        Some(zero())
    } else {
        sum_of(
            items_total_to(book, list, from, to, tax, (n - 1) as nat),
            if tax {
                item_tax(book, list[n - 1], from, to)
            } else {
                item_gross(book, list[n - 1], from, to)
            },
        )
    }
}

/// Whether some figure of the item sales leaves the range.
pub open spec fn items_overflow(
    book: Book,
    items: Seq<Item>,
    from: Option<Day>,
    to: Option<Day>,
) -> bool {
    let list = items_within(book, from, to);
    ||| items_total_to(book, list, from, to, false, list.len()) is None
    ||| items_total_to(book, list, from, to, true, list.len()) is None
    ||| exists|i: int|
        0 <= i < list.len() && item_row(book, items, #[trigger] list[i], from, to) is None
}

/// Whether a list holds the sales of each item.
pub open spec fn are_sales(
    rows: Seq<ItemSalesRow>,
    book: Book,
    items: Seq<Item>,
    from: Option<Day>,
    to: Option<Day>,
) -> bool {
    let list = items_within(book, from, to);
    &&& rows.len() == list.len()
    &&& forall|i: int|
        0 <= i < list.len() ==> item_row(book, items, list[i], from, to) == Some(
            (#[trigger] rows[i])@,
        )
}

proof fn lemma_items_stop(
    book: Book,
    list: Seq<u128>,
    from: Option<Day>,
    to: Option<Day>,
    tax: bool,
    i: nat,
    n: nat,
)
    requires
        i <= n,
        items_total_to(book, list, from, to, tax, i) is None,
    ensures
        items_total_to(book, list, from, to, tax, n) is None,
    decreases n,
{
    if i < n {
        lemma_items_stop(book, list, from, to, tax, i, (n - 1) as nat);
    }
}

fn contains_id(list: &Vec<u128>, id: u128) -> (r: bool)
    ensures
        r == list@.contains(id),
{
    let mut i: usize = 0;
    while i < list.len()
        invariant
            i <= list.len(),
            forall|k: int| 0 <= k < i ==> #[trigger] list@[k] != id,
        decreases list.len() - i,
    {
        if list[i] == id {
            assert(list@[i as int] == id);
            return true;
        }
        i = i + 1;
    }
    false
}

fn sold_items(book: &SaleService, span: &Span) -> (r: Vec<u128>)
    ensures
        r@ == items_within(book@, opt_day(span.from), opt_day(span.to)),
{
    let ghost all = book@.lines;
    let ghost p = line_within(book@.orders, opt_day(span.from), opt_day(span.to));
    let mut out: Vec<u128> = Vec::new();
    let mut i: usize = 0;
    while i < book.lines.len()
        invariant
            i <= book.lines.len(),
            all == book@.lines,
            p == line_within(book@.orders, opt_day(span.from), opt_day(span.to)),
            out@ == keys_to(all, p, its_item(), i as nat),
        decreases book.lines.len() - i,
    {
        let l = &book.lines[i];
        assert(all[i as int] == l@);
        if find_kind_within(book, l.order_id, span).is_some() && !contains_id(&out, l.item_id) {
            assert(p(all[i as int]));
            out.push(l.item_id);
        }
        i = i + 1;
    }
    out
}

fn sum_qty(book: &SaleService, kind: OrderKind, item: u128, span: &Span) -> (r: Result<
    Decimal,
    Error,
>)
    ensures
        match item_qty(book@, kind, item, opt_day(span.from), opt_day(span.to)) {
            Some(n) => r is Ok && r->Ok_0@ == n,
            None => refusal(r) == Some(Refusal::Overflow),
        },
{
    let ghost all = book@.lines;
    let ghost p = line_as(book@.orders, kind, item, opt_day(span.from), opt_day(span.to));
    let mut sum: Option<Decimal> = Some(Decimal::zero());
    let mut i: usize = 0;
    while i < book.lines.len()
        invariant
            i <= book.lines.len(),
            all == book@.lines,
            p == line_as(book@.orders, kind, item, opt_day(span.from), opt_day(span.to)),
            opt(sum) == total(picked_to(all, p, its_qty(), i as nat)),
        decreases book.lines.len() - i,
    {
        let l = &book.lines[i];
        assert(all[i as int] == l@);
        if l.item_id == item && find_kind_within(book, l.order_id, span) == Some(kind) {
            proof {
                assert(p(all[i as int]));
                lemma_total_push(picked_to(all, p, its_qty(), i as nat), l.qty@);
            }
            sum = match sum {
                Some(s) => s.checked_add(l.qty),
                None => None,
            };
        } else {
            assert(!p(all[i as int]));
        }
        i = i + 1;
    }
    in_range(sum)
}

fn sum_net(book: &SaleService, item: u128, span: &Span, tax: bool) -> (r: Result<Decimal, Error>)
    ensures
        match (if tax {
            item_tax(book@, item, opt_day(span.from), opt_day(span.to))
        } else {
            item_gross(book@, item, opt_day(span.from), opt_day(span.to))
        }) {
            Some(n) => r is Ok && r->Ok_0@ == n,
            None => refusal(r) == Some(Refusal::Overflow),
        },
{
    let ghost all = book@.lines;
    let ghost from = opt_day(span.from);
    let ghost to = opt_day(span.to);
    let ghost f = if tax {
        its_tax()
    } else {
        its_net()
    };
    let mut sum: Option<Decimal> = Some(Decimal::zero());
    let mut i: usize = 0;
    while i < book.lines.len()
        invariant
            i <= book.lines.len(),
            all == book@.lines,
            from == opt_day(span.from),
            to == opt_day(span.to),
            f == (if tax {
                its_tax()
            } else {
                its_net()
            }),
            opt(sum) == item_net_to(book@, item, from, to, f, i as nat),
        decreases book.lines.len() - i,
    {
        let l = &book.lines[i];
        assert(all[i as int] == l@);
        if l.item_id == item {
            let amount = if tax {
                l.tax_amount
            } else {
                l.net
            };
            assert(f(all[i as int]) == amount@);
            match find_kind_within(book, l.order_id, span) {
                Some(OrderKind::Sale) => {
                    sum = match sum {
                        Some(s) => s.checked_add(amount),
                        None => None,
                    };
                },
                Some(OrderKind::Refund) => {
                    sum = match sum {
                        Some(s) => s.checked_sub(amount),
                        None => None,
                    };
                },
                None => {},
            }
        }
        i = i + 1;
    }
    in_range(sum)
}

fn make_row(book: &SaleService, items: &Vec<Item>, item: u128, span: &Span) -> (r: Result<
    ItemSalesRow,
    Error,
>)
    ensures
        match item_row(book@, items@, item, opt_day(span.from), opt_day(span.to)) {
            Some(f) => r is Ok && r->Ok_0@ == f,
            None => refusal(r) == Some(Refusal::Overflow),
        },
{
    let qty_sold = sum_qty(book, OrderKind::Sale, item, span)?;
    let qty_refunded = sum_qty(book, OrderKind::Refund, item, span)?;
    let gross = sum_net(book, item, span, false)?;
    let tax = sum_net(book, item, span, true)?;
    let net = in_range(gross.checked_sub(tax))?;
    let (sku, name) = match find_item_by_id(items, item) {
        Some(i) => (items[i].sku.clone(), items[i].name.clone()),
        None => ("".to_owned(), "".to_owned()),
    };
    Ok(ItemSalesRow { item_id: item, sku, name, qty_sold, qty_refunded, gross, tax, net })
}

impl PosQueries {
    /// What sold over the window, by item, what took most first.
    pub fn item_sales(book: &SaleService, items: &Vec<Item>, span: Span) -> (r: Result<
        ItemSalesView,
        Error,
    >)
        ensures
            ({
                let from = opt_day(span.from);
                let to = opt_day(span.to);
                match r {
                    Ok(v) => {
                        let list = items_within(book@, from, to);
                        &&& v.span == span
                        &&& items_total_to(book@, list, from, to, false, list.len()) == Some(
                            v.gross@,
                        )
                        &&& items_total_to(book@, list, from, to, true, list.len()) == Some(v.tax@)
                        &&& exists|rows: Seq<ItemSalesRow>|
                            v.rows@ == #[trigger] arranged(rows) && are_sales(
                                rows,
                                book@,
                                items@,
                                from,
                                to,
                            )
                    },
                    Err(e) => e@ == Refusal::Overflow && items_overflow(book@, items@, from, to),
                }
            }),
    {
        let ghost from = opt_day(span.from);
        let ghost to = opt_day(span.to);
        let list = sold_items(book, &span);
        let mut gross = Decimal::zero();
        let mut tax = Decimal::zero();
        let mut rows: Vec<ItemSalesRow> = Vec::new();
        let mut i: usize = 0;
        while i < list.len()
            invariant
                i <= list.len(),
                from == opt_day(span.from),
                to == opt_day(span.to),
                list@ == items_within(book@, from, to),
                items_total_to(book@, list@, from, to, false, i as nat) == Some(gross@),
                items_total_to(book@, list@, from, to, true, i as nat) == Some(tax@),
                rows@.len() == i,
                forall|k: int|
                    0 <= k < i ==> item_row(book@, items@, list@[k], from, to) == Some(
                        (#[trigger] rows@[k])@,
                    ),
            decreases list.len() - i,
        {
            proof {
                if items_total_to(book@, list@, from, to, false, (i + 1) as nat) is None {
                    lemma_items_stop(
                        book@,
                        list@,
                        from,
                        to,
                        false,
                        (i + 1) as nat,
                        list@.len(),
                    );
                }
                if items_total_to(book@, list@, from, to, true, (i + 1) as nat) is None {
                    lemma_items_stop(book@, list@, from, to, true, (i + 1) as nat, list@.len());
                }
            }
            let row = match make_row(book, items, list[i], &span) {
                Ok(row) => row,
                Err(e) => {
                    assert(item_row(book@, items@, list@[i as int], from, to) is None);
                    return Err(e);
                },
            };
            gross = in_range(gross.checked_add(row.gross))?;
            tax = in_range(tax.checked_add(row.tax))?;
            rows.push(row);
            i = i + 1;
        }
        let ghost all = rows@;
        assert(are_sales(all, book@, items@, from, to));
        let rows = arrange(rows);
        assert(rows@ == arranged(all));
        Ok(ItemSalesView { rows, span, gross, tax })
    }
}

// ---------------------------------------------------------------------------
// The items of one session
// ---------------------------------------------------------------------------

/// What a session sold under one description, net of refunds.
#[derive(Debug)]
pub struct ZItemRow {
    pub description: String,
    pub qty: Decimal,
    pub gross: Decimal,
}

/// What a session's item says.
pub struct ZItem {
    pub description: Seq<char>,
    pub qty: Num,
    pub gross: Num,
}

impl View for ZItemRow {
    type V = ZItem;

    open spec fn view(&self) -> ZItem {
        ZItem { description: self.description@, qty: self.qty@, gross: self.gross@ }
    }
}

impl Ordered for ZItemRow {
    /// What took most stands first.
    open spec fn precedes(a: Self, b: Self) -> bool {
        worth(b.gross@) < worth(a.gross@)
    }

    fn goes_before(&self, other: &Self) -> (r: bool) {
        other.gross.less(&self.gross)
    }
}

pub open spec fn line_in(orders: Seq<OrderFacts>, session: u128) -> spec_fn(LineFacts) -> bool {
    |l: LineFacts| kind_in(orders, session, l.order_id) is Some
}

pub open spec fn line_called(orders: Seq<OrderFacts>, session: u128, description: Seq<char>) -> spec_fn(
    LineFacts,
) -> bool {
    |l: LineFacts|
        l.description == description && kind_in(orders, session, l.order_id) is Some
}

pub open spec fn its_description() -> spec_fn(LineFacts) -> Seq<char> {
    |l: LineFacts| l.description
}

/// What a line sells, or takes back.
pub open spec fn signed(orders: Seq<OrderFacts>, session: u128, gross: bool) -> spec_fn(LineFacts) -> Num {
    |l: LineFacts|
        {
            let amount = if gross {
                l.net
            } else {
                l.qty
            };
            if kind_in(orders, session, l.order_id) == Some(OrderKind::Sale) {
                amount
            } else {
                negated(amount)
            }
        }
}

/// The descriptions that a session sold or refunded.
pub open spec fn descriptions_of(book: Book, session: u128) -> Seq<Seq<char>> {
    keys_of(book.lines, line_in(book.orders, session), its_description())
}

/// What a session sold under a description; `None` where it leaves the range.
pub open spec fn z_item(book: Book, session: u128, description: Seq<char>) -> Option<ZItem> {
    let p = line_called(book.orders, session, description);
    match (
        total(picked(book.lines, p, signed(book.orders, session, false))),
        total(picked(book.lines, p, signed(book.orders, session, true))),
    ) {
        (Some(qty), Some(gross)) => Some(ZItem { description, qty, gross }),
        _ => None,
    }
}

/// Whether a list holds what a session sold under each description.
pub open spec fn are_z_items(rows: Seq<ZItemRow>, book: Book, session: u128) -> bool {
    let list = descriptions_of(book, session);
    &&& rows.len() == list.len()
    &&& forall|i: int|
        0 <= i < list.len() ==> z_item(book, session, list[i]) == Some((#[trigger] rows[i])@)
}

fn sold_descriptions(book: &SaleService, session: u128) -> (r: Vec<String>)
    ensures
        texts(r@) == descriptions_of(book@, session),
{
    let ghost all = book@.lines;
    let ghost p = line_in(book@.orders, session);
    let mut out: Vec<String> = Vec::new();
    assert(texts(out@) =~= keys_to(all, p, its_description(), 0));
    let mut i: usize = 0;
    while i < book.lines.len()
        invariant
            i <= book.lines.len(),
            all == book@.lines,
            p == line_in(book@.orders, session),
            texts(out@) == keys_to(all, p, its_description(), i as nat),
        decreases book.lines.len() - i,
    {
        let l = &book.lines[i];
        assert(all[i as int] == l@);
        if find_kind(book, session, l.order_id).is_some() && !contains_text(
            &out,
            l.description.as_str(),
        ) {
            assert(p(all[i as int]));
            let ghost held = texts(out@);
            out.push(l.description.clone());
            assert(texts(out@) =~= held.push(l.description@));
        }
        i = i + 1;
    }
    out
}

fn sum_called(book: &SaleService, session: u128, description: &str, gross: bool) -> (r: Option<
    Decimal,
>)
    ensures
        opt(r) == total(
            picked(
                book@.lines,
                line_called(book@.orders, session, description@),
                signed(book@.orders, session, gross),
            ),
        ),
{
    let ghost all = book@.lines;
    let ghost p = line_called(book@.orders, session, description@);
    let ghost f = signed(book@.orders, session, gross);
    let mut sum: Option<Decimal> = Some(Decimal::zero());
    let mut i: usize = 0;
    while i < book.lines.len()
        invariant
            i <= book.lines.len(),
            all == book@.lines,
            p == line_called(book@.orders, session, description@),
            f == signed(book@.orders, session, gross),
            opt(sum) == total(picked_to(all, p, f, i as nat)),
        decreases book.lines.len() - i,
    {
        let l = &book.lines[i];
        assert(all[i as int] == l@);
        let kind = find_kind(book, session, l.order_id);
        if same(l.description.as_str(), description) && kind.is_some() {
            let amount = if gross {
                l.net
            } else {
                l.qty
            };
            let moved = if kind == Some(OrderKind::Sale) {
                amount
            } else {
                amount.negate()
            };
            proof {
                assert(p(all[i as int]));
                assert(f(all[i as int]) == moved@);
                lemma_total_push(picked_to(all, p, f, i as nat), moved@);
            }
            sum = match sum {
                Some(s) => s.checked_add(moved),
                None => None,
            };
        } else {
            assert(!p(all[i as int]));
        }
        i = i + 1;
    }
    sum
}

/// Whether an outcome is what a session sold, by description, what took most
/// first. It fails where a figure leaves the range.
pub open spec fn are_sold(r: Result<Vec<ZItemRow>, Error>, book: Book, session: u128) -> bool {
    match r {
        Ok(v) => exists|rows: Seq<ZItemRow>|
            v@ == #[trigger] arranged(rows) && are_z_items(rows, book, session),
        Err(e) => e@ == Refusal::Overflow && exists|i: int|
            0 <= i < descriptions_of(book, session).len() && z_item(
                book,
                session,
                #[trigger] descriptions_of(book, session)[i],
            ) is None,
    }
}

impl PosQueries {
    /// What a session sold, by description, net of refunds, what took most
    /// first.
    pub fn z_items(book: &SaleService, session: u128) -> (r: Result<Vec<ZItemRow>, Error>)
        ensures
            are_sold(r, book@, session),
    {
        let list = sold_descriptions(book, session);
        let ghost all = texts(list@);
        let mut rows: Vec<ZItemRow> = Vec::new();
        let mut i: usize = 0;
        while i < list.len()
            invariant
                i <= list.len(),
                all == texts(list@),
                all == descriptions_of(book@, session),
                rows@.len() == i,
                forall|k: int|
                    0 <= k < i ==> z_item(book@, session, all[k]) == Some((#[trigger] rows@[k])@),
            decreases list.len() - i,
        {
            assert(all[i as int] == list@[i as int]@);
            let qty = sum_called(book, session, list[i].as_str(), false);
            let gross = sum_called(book, session, list[i].as_str(), true);
            match (qty, gross) {
                (Some(qty), Some(gross)) => {
                    rows.push(ZItemRow { description: list[i].clone(), qty, gross });
                },
                _ => {
                    assert(z_item(book@, session, descriptions_of(book@, session)[i as int])
                        is None);
                    return Err(Error::Overflow);
                },
            }
            i = i + 1;
        }
        let ghost held = rows@;
        assert(are_z_items(held, book@, session));
        let rows = arrange(rows);
        assert(rows@ == arranged(held));
        Ok(rows)
    }
}

} // verus!
