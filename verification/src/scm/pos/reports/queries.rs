//! The figures behind the reports of the point of sale.
//!
//! Everything derives from captured orders and the sessions that held them;
//! voided orders count only as voids. A session belongs to the day it opened,
//! an order to the day it sold.

pub mod hours;
pub mod items;
pub mod sessions;

use crate::clock::{lies_in, Span};
use crate::date::{opt_day, Day};
use crate::decimal::{opt, worth, zero, Decimal, Num};
use crate::error::{in_range, refusal, Error, Refusal};
use crate::scm::pos::sale::{Book, OrderFacts, OrderKind, OrderStatus, PaymentFacts, SaleService};
use crate::search::{first_from, first_where};
use crate::sort::{arrange, arranged, Ordered};
use crate::sums::{
    counted, counted_to, difference_of, keys_of, keys_to, lemma_total_push, picked, picked_to,
    product_of, quotient_of, rounded_of, sum_of, total,
};
use crate::text::{contains_text, same, texts};
use crate::scm::pos::takings::its_amount;
use vstd::prelude::*;

verus! {

// ---------------------------------------------------------------------------
// What was sold in a window
// ---------------------------------------------------------------------------

/// Whether an order was captured in a window.
pub open spec fn sold_within(o: OrderFacts, from: Option<Day>, to: Option<Day>) -> bool {
    o.status == OrderStatus::Captured && lies_in(o.sold_at as int, from, to)
}

pub open spec fn sold_as(id: u128, from: Option<Day>, to: Option<Day>) -> spec_fn(OrderFacts) -> bool {
    |o: OrderFacts| o.id == id && sold_within(o, from, to)
}

/// What kind of order was captured in a window under an id, where one was.
pub open spec fn kind_within(
    orders: Seq<OrderFacts>,
    id: u128,
    from: Option<Day>,
    to: Option<Day>,
) -> Option<OrderKind> {
    match first_where(orders, sold_as(id, from, to)) {
        Some(o) => Some(o.kind),
        None => None,
    }
}

pub(crate) fn find_kind_within(book: &SaleService, id: u128, span: &Span) -> (r: Option<OrderKind>)
    ensures
        r == kind_within(book@.orders, id, opt_day(span.from), opt_day(span.to)),
{
    let ghost all = book@.orders;
    let ghost p = sold_as(id, opt_day(span.from), opt_day(span.to));
    let mut i: usize = 0;
    while i < book.orders.len()
        invariant
            i <= book.orders.len(),
            all == book@.orders,
            p == sold_as(id, opt_day(span.from), opt_day(span.to)),
            first_from(all, p, 0) == first_from(all, p, i as int),
        decreases book.orders.len() - i,
    {
        let o = &book.orders[i];
        assert(all[i as int] == o@);
        if o.id == id && o.status == OrderStatus::Captured && span.holds(o.sold_at) {
            return Some(o.kind);
        }
        i = i + 1;
    }
    None
}

// ---------------------------------------------------------------------------
// Tender mix
// ---------------------------------------------------------------------------

/// One tender's share of a window.
#[derive(Debug)]
pub struct TenderMixRow {
    pub tender: String,
    /// Payments seen on sales.
    pub payments: usize,
    pub sales: Decimal,
    pub refunds: Decimal,
    pub net: Decimal,
    /// This tender's part of the net takings, in percent; absent when the
    /// window took no money at all.
    pub share_pct: Option<Decimal>,
}

/// What a tender's share says.
pub struct MixFacts {
    pub tender: Seq<char>,
    pub payments: nat,
    pub sales: Num,
    pub refunds: Num,
    pub net: Num,
    pub share_pct: Option<Num>,
}

impl View for TenderMixRow {
    type V = MixFacts;

    open spec fn view(&self) -> MixFacts {
        MixFacts {
            tender: self.tender@,
            payments: self.payments as nat,
            sales: self.sales@,
            refunds: self.refunds@,
            net: self.net@,
            share_pct: opt(self.share_pct),
        }
    }
}

#[derive(Debug)]
pub struct TenderMixView {
    pub rows: Vec<TenderMixRow>,
    pub span: Span,
    pub net_total: Decimal,
}

impl Ordered for TenderMixRow {
    /// The tender that took most stands first.
    open spec fn precedes(a: Self, b: Self) -> bool {
        worth(b.net@) < worth(a.net@)
    }

    fn goes_before(&self, other: &Self) -> (r: bool) {
        other.net.less(&self.net)
    }
}

/// Whether a payment was made on an order of the window.
pub open spec fn paid_within(orders: Seq<OrderFacts>, from: Option<Day>, to: Option<Day>) -> spec_fn(
    PaymentFacts,
) -> bool {
    |p: PaymentFacts| kind_within(orders, p.order_id, from, to) is Some
}

/// Whether a payment was made by a tender, on an order of that kind in the
/// window.
pub open spec fn paid_as(
    orders: Seq<OrderFacts>,
    kind: OrderKind,
    tender: Seq<char>,
    from: Option<Day>,
    to: Option<Day>,
) -> spec_fn(PaymentFacts) -> bool {
    |p: PaymentFacts|
        p.tender == tender && kind_within(orders, p.order_id, from, to) == Some(kind)
}

pub open spec fn its_tender() -> spec_fn(PaymentFacts) -> Seq<char> {
    |p: PaymentFacts| p.tender
}

/// The tenders that were used in a window.
pub open spec fn tenders_within(book: Book, from: Option<Day>, to: Option<Day>) -> Seq<Seq<char>> {
    keys_of(book.payments, paid_within(book.orders, from, to), its_tender())
}

/// What a tender took, or gave, in a window.
pub open spec fn tender_total(
    book: Book,
    kind: OrderKind,
    tender: Seq<char>,
    from: Option<Day>,
    to: Option<Day>,
) -> Option<Num> {
    total(picked(book.payments, paid_as(book.orders, kind, tender, from, to), its_amount()))
}

/// What a tender took in a window, net of refunds.
pub open spec fn tender_net(
    book: Book,
    tender: Seq<char>,
    from: Option<Day>,
    to: Option<Day>,
) -> Option<Num> {
    difference_of(
        tender_total(book, OrderKind::Sale, tender, from, to),
        tender_total(book, OrderKind::Refund, tender, from, to),
    )
}

/// What the first `n` tenders took together, net of refunds.
pub open spec fn nets_to(
    book: Book,
    tenders: Seq<Seq<char>>,
    from: Option<Day>,
    to: Option<Day>,
    n: nat,
) -> Option<Num>
    decreases n,
{
    if n == 0 {
        Some(zero())
    } else {
        sum_of(
            nets_to(book, tenders, from, to, (n - 1) as nat),
            tender_net(book, tenders[n - 1], from, to),
        )
    }
}

/// A part of a whole in percent, to one decimal; none of nothing. The outer
/// level is absent where it leaves the range.
pub open spec fn percent(part: Num, whole: Num) -> Option<Option<Num>> {
    if whole.0 == 0 {
        Some(None)
    } else {
        match rounded_of(
            quotient_of(product_of(Some(part), Some((100int, 0nat))), Some(whole)),
            1,
        ) {
            Some(p) => Some(Some(p)),
            None => None,
        }
    }
}

/// A tender's share of the net takings.
pub open spec fn mix_row(
    book: Book,
    tender: Seq<char>,
    from: Option<Day>,
    to: Option<Day>,
    net_total: Num,
) -> Option<MixFacts> {
    match (tender_net(book, tender, from, to), percent(
        tender_net(book, tender, from, to)->0,
        net_total,
    )) {
        (Some(net), Some(share_pct)) => Some(
            MixFacts {
                tender,
                payments: counted(
                    book.payments,
                    paid_as(book.orders, OrderKind::Sale, tender, from, to),
                ),
                sales: tender_total(book, OrderKind::Sale, tender, from, to)->0,
                refunds: tender_total(book, OrderKind::Refund, tender, from, to)->0,
                net,
                share_pct,
            },
        ),
        _ => None,
    }
}

/// Whether some figure of the mix leaves the range.
pub open spec fn mix_overflows(book: Book, from: Option<Day>, to: Option<Day>) -> bool {
    let tenders = tenders_within(book, from, to);
    ||| nets_to(book, tenders, from, to, tenders.len()) is None
    ||| exists|i: int|
        0 <= i < tenders.len() && mix_row(
            book,
            #[trigger] tenders[i],
            from,
            to,
            nets_to(book, tenders, from, to, tenders.len())->0,
        ) is None
}

/// Whether a list holds the share of each tender that was used.
pub open spec fn are_shares(
    list: Seq<TenderMixRow>,
    book: Book,
    from: Option<Day>,
    to: Option<Day>,
    net_total: Num,
) -> bool {
    let tenders = tenders_within(book, from, to);
    &&& list.len() == tenders.len()
    &&& forall|i: int|
        0 <= i < tenders.len() ==> mix_row(book, tenders[i], from, to, net_total) == Some(
            (#[trigger] list[i])@,
        )
}

proof fn lemma_nets_stop(
    book: Book,
    tenders: Seq<Seq<char>>,
    from: Option<Day>,
    to: Option<Day>,
    i: nat,
    n: nat,
)
    requires
        i <= n,
        nets_to(book, tenders, from, to, i) is None,
    ensures
        nets_to(book, tenders, from, to, n) is None,
    decreases n,
{
    if i < n {
        lemma_nets_stop(book, tenders, from, to, i, (n - 1) as nat);
    }
}

fn used_tenders(book: &SaleService, span: &Span) -> (r: Vec<String>)
    ensures
        texts(r@) == tenders_within(book@, opt_day(span.from), opt_day(span.to)),
{
    let ghost all = book@.payments;
    let ghost p = paid_within(book@.orders, opt_day(span.from), opt_day(span.to));
    let mut out: Vec<String> = Vec::new();
    assert(texts(out@) =~= keys_to(all, p, its_tender(), 0));
    let mut i: usize = 0;
    while i < book.payments.len()
        invariant
            i <= book.payments.len(),
            all == book@.payments,
            p == paid_within(book@.orders, opt_day(span.from), opt_day(span.to)),
            texts(out@) == keys_to(all, p, its_tender(), i as nat),
        decreases book.payments.len() - i,
    {
        let row = &book.payments[i];
        assert(all[i as int] == row@);
        if find_kind_within(book, row.order_id, span).is_some() && !contains_text(
            &out,
            row.tender.as_str(),
        ) {
            assert(p(all[i as int]));
            let ghost held = texts(out@);
            out.push(row.tender.clone());
            assert(texts(out@) =~= held.push(row.tender@));
        }
        i = i + 1;
    }
    out
}

/// What a tender took, or gave, in a window, and in how many payments.
fn sum_tender(book: &SaleService, kind: OrderKind, tender: &str, span: &Span) -> (r: Result<
    (Decimal, usize),
    Error,
>)
    ensures
        match tender_total(book@, kind, tender@, opt_day(span.from), opt_day(span.to)) {
            Some(n) => r is Ok && (r->Ok_0).0@ == n && (r->Ok_0).1 == counted(
                book@.payments,
                paid_as(book@.orders, kind, tender@, opt_day(span.from), opt_day(span.to)),
            ),
            None => refusal(r) == Some(Refusal::Overflow),
        },
{
    let ghost all = book@.payments;
    let ghost p = paid_as(book@.orders, kind, tender@, opt_day(span.from), opt_day(span.to));
    let mut sum: Option<Decimal> = Some(Decimal::zero());
    let mut many: usize = 0;
    let mut i: usize = 0;
    while i < book.payments.len()
        invariant
            i <= book.payments.len(),
            many <= i,
            all == book@.payments,
            p == paid_as(book@.orders, kind, tender@, opt_day(span.from), opt_day(span.to)),
            opt(sum) == total(picked_to(all, p, its_amount(), i as nat)),
            many == counted_to(all, p, i as nat),
        decreases book.payments.len() - i,
    {
        let row = &book.payments[i];
        assert(all[i as int] == row@);
        if same(row.tender.as_str(), tender) && find_kind_within(book, row.order_id, span) == Some(
            kind,
        ) {
            proof {
                assert(p(all[i as int]));
                lemma_total_push(picked_to(all, p, its_amount(), i as nat), row.amount@);
            }
            many = many + 1;
            sum = match sum {
                Some(s) => s.checked_add(row.amount),
                None => None,
            };
        } else {
            assert(!p(all[i as int]));
        }
        i = i + 1;
    }
    let sum = in_range(sum)?;
    Ok((sum, many))
}

fn percent_of(part: Decimal, whole: Decimal) -> (r: Result<Option<Decimal>, Error>)
    ensures
        match percent(part@, whole@) {
            None => refusal(r) == Some(Refusal::Overflow),
            Some(p) => r is Ok && opt(r->Ok_0) == p,
        },
{
    if whole.is_zero() {
        return Ok(None);
    }
    let product = in_range(part.checked_mul(Decimal::one_hundred()))?;
    let quotient = in_range(product.checked_div(whole))?;
    Ok(Some(quotient.round_dp(1)))
}

fn sum_nets(book: &SaleService, tenders: &Vec<String>, span: &Span) -> (r: Result<Decimal, Error>)
    ensures
        match nets_to(
            book@,
            texts(tenders@),
            opt_day(span.from),
            opt_day(span.to),
            tenders@.len(),
        ) {
            Some(n) => r is Ok && r->Ok_0@ == n,
            None => refusal(r) == Some(Refusal::Overflow),
        },
{
    let ghost from = opt_day(span.from);
    let ghost to = opt_day(span.to);
    let ghost all = texts(tenders@);
    let mut sum = Decimal::zero();
    let mut i: usize = 0;
    while i < tenders.len()
        invariant
            i <= tenders.len(),
            from == opt_day(span.from),
            to == opt_day(span.to),
            all == texts(tenders@),
            nets_to(book@, all, from, to, i as nat) == Some(sum@),
        decreases tenders.len() - i,
    {
        assert(all[i as int] == tenders@[i as int]@);
        proof {
            if nets_to(book@, all, from, to, (i + 1) as nat) is None {
                lemma_nets_stop(book@, all, from, to, (i + 1) as nat, all.len());
            }
        }
        let (sales, _) = sum_tender(book, OrderKind::Sale, tenders[i].as_str(), span)?;
        let (refunds, _) = sum_tender(book, OrderKind::Refund, tenders[i].as_str(), span)?;
        let net = in_range(sales.checked_sub(refunds))?;
        sum = in_range(sum.checked_add(net))?;
        i = i + 1;
    }
    Ok(sum)
}

fn make_row(book: &SaleService, tender: &str, span: &Span, net_total: Decimal) -> (r: Result<
    TenderMixRow,
    Error,
>)
    ensures
        match mix_row(book@, tender@, opt_day(span.from), opt_day(span.to), net_total@) {
            Some(f) => r is Ok && r->Ok_0@ == f,
            None => refusal(r) == Some(Refusal::Overflow),
        },
{
    let (sales, payments) = sum_tender(book, OrderKind::Sale, tender, span)?;
    let (refunds, _) = sum_tender(book, OrderKind::Refund, tender, span)?;
    let net = in_range(sales.checked_sub(refunds))?;
    let share_pct = percent_of(net, net_total)?;
    Ok(TenderMixRow { tender: tender.to_owned(), payments, sales, refunds, net, share_pct })
}

/// The figures of the point of sale.
#[derive(Clone, Copy, Debug)]
pub struct PosQueries;

impl PosQueries {
    /// How the window's money arrived, per tender, what took most first.
    pub fn tender_mix(book: &SaleService, span: Span) -> (r: Result<TenderMixView, Error>)
        ensures
            ({
                let from = opt_day(span.from);
                let to = opt_day(span.to);
                match r {
                    Ok(v) => {
                        let tenders = tenders_within(book@, from, to);
                        &&& v.span == span
                        &&& nets_to(book@, tenders, from, to, tenders.len()) == Some(v.net_total@)
                        &&& exists|list: Seq<TenderMixRow>|
                            v.rows@ == #[trigger] arranged(list) && are_shares(
                                list,
                                book@,
                                from,
                                to,
                                v.net_total@,
                            )
                    },
                    Err(e) => e@ == Refusal::Overflow && mix_overflows(book@, from, to),
                }
            }),
    {
        let ghost from = opt_day(span.from);
        let ghost to = opt_day(span.to);
        let tenders = used_tenders(book, &span);
        let ghost all = texts(tenders@);
        let net_total = sum_nets(book, &tenders, &span)?;
        let mut rows: Vec<TenderMixRow> = Vec::new();
        let mut i: usize = 0;
        while i < tenders.len()
            invariant
                i <= tenders.len(),
                from == opt_day(span.from),
                to == opt_day(span.to),
                all == texts(tenders@),
                all == tenders_within(book@, from, to),
                nets_to(book@, all, from, to, all.len()) == Some(net_total@),
                rows@.len() == i,
                forall|k: int|
                    0 <= k < i ==> mix_row(book@, all[k], from, to, net_total@) == Some(
                        (#[trigger] rows@[k])@,
                    ),
            decreases tenders.len() - i,
        {
            assert(all[i as int] == tenders@[i as int]@);
            let row = match make_row(book, tenders[i].as_str(), &span, net_total) {
                Ok(row) => row,
                Err(e) => {
                    assert(mix_row(book@, all[i as int], from, to, net_total@) is None);
                    return Err(e);
                },
            };
            rows.push(row);
            i = i + 1;
        }
        let ghost list = rows@;
        assert(are_shares(list, book@, from, to, net_total@));
        let rows = arrange(rows);
        assert(rows@ == arranged(list));
        Ok(TenderMixView { rows, span, net_total })
    }
}

} // verus!
