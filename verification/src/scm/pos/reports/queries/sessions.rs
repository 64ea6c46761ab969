//! The sessions of a window, each with its money and its close.

use super::PosQueries;
use crate::text::{copy_text, opt_text};
use crate::clock::{lies_in, Span};
use crate::date::{opt_day, Day};
use crate::decimal::{minus, opt, zero, Decimal, Num};
use crate::error::{in_range, refusal, Error, Refusal};
use crate::scm::pos::register::{find_register, register_id, Model as Register};
use crate::scm::pos::sale::{Book, SaleService};
use crate::scm::pos::session::{CashMovement, Session, SessionCount, SessionService, SessionStatus};
use crate::scm::pos::takings::{
    is_money, money_in_range, session_money, stored_count, stored_row, tax_net_of, SessionMoney,
};
use crate::search::{find, first_where, kept_to, lemma_kept_at};
use crate::sort::{arrange, arranged, Ordered};
use crate::sums::{lemma_total_none, total, total_to};
use vstd::prelude::*;

verus! {

/// How fast a session sold: seconds and inputs per sale.
#[derive(Clone, Copy, Debug)]
pub struct Tempo {
    pub session_id: u128,
    pub seconds: Option<Decimal>,
    pub inputs: Option<Decimal>,
}

/// One session's day, summarized.
#[derive(Debug)]
pub struct SessionSummaryRow {
    pub session_id: u128,
    pub number: Option<String>,
    pub register_code: String,
    pub status: SessionStatus,
    pub opened_at: i64,
    pub closed_at: Option<i64>,
    pub orders: usize,
    pub refunds: usize,
    pub voids: usize,
    pub gross_sales: Decimal,
    pub refund_total: Decimal,
    /// Net takings, tax included.
    pub net_total: Decimal,
    pub tax_total: Decimal,
    /// Counted less expected cash, from what was counted at the close.
    pub cash_variance: Option<Decimal>,
    pub avg_sale_seconds: Option<Decimal>,
    pub avg_sale_inputs: Option<Decimal>,
}

#[derive(Debug)]
pub struct SessionSummaryView {
    pub rows: Vec<SessionSummaryRow>,
    pub span: Span,
    pub gross_sales: Decimal,
    pub refund_total: Decimal,
    pub net_total: Decimal,
    pub tax_total: Decimal,
    pub cash_variance: Decimal,
}

impl Ordered for SessionSummaryRow {
    /// The session that was opened last stands first.
    open spec fn precedes(a: Self, b: Self) -> bool {
        b.opened_at < a.opened_at
    }

    fn goes_before(&self, other: &Self) -> (r: bool) {
        other.opened_at < self.opened_at
    }
}

/// Whether a session was opened in the window, on the register that is asked
/// for.
pub open spec fn is_asked_for(
    s: Session,
    from: Option<Day>,
    to: Option<Day>,
    register: Option<u128>,
) -> bool {
    lies_in(s.opened_at as int, from, to) && (register matches Some(id) ==> s.register_id == id)
}

/// The sessions among the first `n` that are asked for.
pub open spec fn asked_for_to(
    sessions: Seq<Session>,
    from: Option<Day>,
    to: Option<Day>,
    register: Option<u128>,
    n: nat,
) -> Seq<Session> {
    kept_to(sessions, |s: Session| is_asked_for(s, from, to, register), n)
}

pub open spec fn tempo_of(session: u128) -> spec_fn(Tempo) -> bool {
    |t: Tempo| t.session_id == session
}

/// The variance that is shown of a session: only a closed one has any. The
/// outer level is absent where it leaves the range.
pub open spec fn shown_variance(s: Session, counts: Seq<SessionCount>) -> Option<Option<Num>> {
    if s.status != SessionStatus::Closed {
        Some(None)
    } else {
        match stored_count(counts, s.id, "cash"@, true) {
            None => Some(None),
            Some(c) => match minus(c.counted@, c.expected@) {
                Some(v) => Some(Some(v)),
                None => None,
            },
        }
    }
}

/// Whether a row is the summary of a session with its money.
pub open spec fn summarizes(
    row: SessionSummaryRow,
    s: Session,
    m: SessionMoney,
    registers: Seq<Register>,
    counts: Seq<SessionCount>,
    tempos: Seq<Tempo>,
) -> bool {
    let tempo = first_where(tempos, tempo_of(s.id));
    &&& row.session_id == s.id
    &&& opt_text(row.number) == opt_text(s.number)
    &&& row.register_code@ == (match first_where(registers, register_id(s.register_id)) {
        Some(r) => r.code@,
        None => ""@,
    })
    &&& row.status == s.status
    &&& row.opened_at == s.opened_at
    &&& row.closed_at == s.closed_at
    &&& row.orders == m.sales_count
    &&& row.refunds == m.refunds_count
    &&& row.voids == m.voids_count
    &&& row.gross_sales == m.gross_sales
    &&& row.refund_total == m.refund_total
    &&& minus(m.gross_sales@, m.refund_total@) == Some(row.net_total@)
    &&& tax_net_of(m) == Some(row.tax_total@)
    &&& shown_variance(s, counts) == Some(opt(row.cash_variance))
    &&& row.avg_sale_seconds == (match tempo {
        Some(t) => t.seconds,
        None => None,
    })
    &&& row.avg_sale_inputs == (match tempo {
        Some(t) => t.inputs,
        None => None,
    })
}

/// Whether a row is the summary of a session.
pub open spec fn is_summary(
    row: SessionSummaryRow,
    s: Session,
    book: Book,
    drawer: Seq<CashMovement>,
    registers: Seq<Register>,
    counts: Seq<SessionCount>,
    tempos: Seq<Tempo>,
) -> bool {
    exists|m: SessionMoney|
        #[trigger] is_money(m, book, drawer, s.id) && summarizes(
            row,
            s,
            m,
            registers,
            counts,
            tempos,
        )
}

/// Whether some figure of a session's summary leaves the range.
pub open spec fn summary_overflows(
    s: Session,
    book: Book,
    drawer: Seq<CashMovement>,
    counts: Seq<SessionCount>,
) -> bool {
    ||| !money_in_range(book, drawer, s.id)
    ||| shown_variance(s, counts) is None
    ||| exists|m: SessionMoney|
        #[trigger] is_money(m, book, drawer, s.id) && (minus(m.gross_sales@, m.refund_total@)
            is None || tax_net_of(m) is None)
}

pub open spec fn gross_column(rows: Seq<SessionSummaryRow>) -> Seq<Num> {
    rows.map_values(|r: SessionSummaryRow| r.gross_sales@)
}

pub open spec fn refund_column(rows: Seq<SessionSummaryRow>) -> Seq<Num> {
    rows.map_values(|r: SessionSummaryRow| r.refund_total@)
}

pub open spec fn net_column(rows: Seq<SessionSummaryRow>) -> Seq<Num> {
    rows.map_values(|r: SessionSummaryRow| r.net_total@)
}

pub open spec fn tax_column(rows: Seq<SessionSummaryRow>) -> Seq<Num> {
    rows.map_values(|r: SessionSummaryRow| r.tax_total@)
}

pub open spec fn variance_column(rows: Seq<SessionSummaryRow>) -> Seq<Num> {
    rows.map_values(
        |r: SessionSummaryRow|
            match r.cash_variance {
                Some(v) => v@,
                None => zero(),
            },
    )
}

/// Whether some column does not add up within the range.
pub open spec fn columns_overflow(rows: Seq<SessionSummaryRow>) -> bool {
    ||| total(gross_column(rows)) is None
    ||| total(refund_column(rows)) is None
    ||| total(net_column(rows)) is None
    ||| total(tax_column(rows)) is None
    ||| total(variance_column(rows)) is None
}

fn find_tempo(tempos: &Vec<Tempo>, session: u128) -> (r: Option<Tempo>)
    ensures
        r == first_where(tempos@, tempo_of(session)),
{
    let found = find(tempos, Ghost(tempo_of(session)), |x: &Tempo| -> (b: bool)
        ensures
            b == tempo_of(session)(*x),
        { x.session_id == session });
    match found {
        Some(i) => Some(tempos[i]),
        None => None,
    }
}

fn show_variance(s: &Session, counts: &Vec<SessionCount>) -> (r: Result<Option<Decimal>, Error>)
    ensures
        match shown_variance(*s, counts@) {
            None => refusal(r) == Some(Refusal::Overflow),
            Some(v) => r is Ok && opt(r->Ok_0) == v,
        },
{
    if s.status != SessionStatus::Closed {
        return Ok(None);
    }
    match stored_row(counts, s.id, "cash", true) {
        None => Ok(None),
        Some(c) => {
            let v = in_range(c.counted.checked_sub(c.expected))?;
            Ok(Some(v))
        },
    }
}

fn summarize(
    s: &Session,
    book: &SaleService,
    service: &SessionService,
    registers: &Vec<Register>,
    tempos: &Vec<Tempo>,
) -> (r: Result<SessionSummaryRow, Error>)
    ensures
        match r {
            Ok(row) => is_summary(
                row,
                *s,
                book@,
                service.drawer@,
                registers@,
                service.counts@,
                tempos@,
            ),
            Err(e) => e@ == Refusal::Overflow && summary_overflows(
                *s,
                book@,
                service.drawer@,
                service.counts@,
            ),
        },
{
    let m = session_money(book, &service.drawer, s.id)?;
    let cash_variance = show_variance(s, &service.counts)?;
    let net_total = in_range(m.gross_sales.checked_sub(m.refund_total))?;
    let tax_total = m.tax_net()?;
    let register_code = match find_register(registers, s.register_id) {
        Some(i) => registers[i].code.clone(),
        None => "".to_owned(),
    };
    let (avg_sale_seconds, avg_sale_inputs) = match find_tempo(tempos, s.id) {
        Some(t) => (t.seconds, t.inputs),
        None => (None, None),
    };
    let row = SessionSummaryRow {
        session_id: s.id,
        number: copy_text(&s.number),
        register_code,
        status: s.status,
        opened_at: s.opened_at,
        closed_at: s.closed_at,
        orders: m.sales_count,
        refunds: m.refunds_count,
        voids: m.voids_count,
        gross_sales: m.gross_sales,
        refund_total: m.refund_total,
        net_total,
        tax_total,
        cash_variance,
        avg_sale_seconds,
        avg_sale_inputs,
    };
    assert(is_money(m, book@, service.drawer@, s.id));
    assert(summarizes(row, *s, m, registers@, service.counts@, tempos@));
    Ok(row)
}

/// What the columns of a summary come to.
struct Columns {
    gross: Decimal,
    refunds: Decimal,
    net: Decimal,
    tax: Decimal,
    variance: Decimal,
}

fn add_columns(rows: &Vec<SessionSummaryRow>) -> (r: Result<Columns, Error>)
    ensures
        match r {
            Ok(c) => {
                &&& total(gross_column(rows@)) == Some(c.gross@)
                &&& total(refund_column(rows@)) == Some(c.refunds@)
                &&& total(net_column(rows@)) == Some(c.net@)
                &&& total(tax_column(rows@)) == Some(c.tax@)
                &&& total(variance_column(rows@)) == Some(c.variance@)
            },
            Err(e) => e@ == Refusal::Overflow && columns_overflow(rows@),
        },
{
    let mut gross = Decimal::zero();
    let mut refunds = Decimal::zero();
    let mut net = Decimal::zero();
    let mut tax = Decimal::zero();
    let mut variance = Decimal::zero();
    let mut i: usize = 0;
    while i < rows.len()
        invariant
            i <= rows.len(),
            total_to(gross_column(rows@), i as nat) == Some(gross@),
            total_to(refund_column(rows@), i as nat) == Some(refunds@),
            total_to(net_column(rows@), i as nat) == Some(net@),
            total_to(tax_column(rows@), i as nat) == Some(tax@),
            total_to(variance_column(rows@), i as nat) == Some(variance@),
        decreases rows.len() - i,
    {
        let row = &rows[i];
        let differs = match row.cash_variance {
            Some(v) => v,
            None => Decimal::zero(),
        };
        proof {
            let n = (i + 1) as nat;
            let all = rows@.len();
            assert(gross_column(rows@)[i as int] == row.gross_sales@);
            assert(refund_column(rows@)[i as int] == row.refund_total@);
            assert(net_column(rows@)[i as int] == row.net_total@);
            assert(tax_column(rows@)[i as int] == row.tax_total@);
            assert(variance_column(rows@)[i as int] == differs@);
            if total_to(gross_column(rows@), n) is None {
                lemma_total_none(gross_column(rows@), n, all);
            }
            if total_to(refund_column(rows@), n) is None {
                lemma_total_none(refund_column(rows@), n, all);
            }
            if total_to(net_column(rows@), n) is None {
                lemma_total_none(net_column(rows@), n, all);
            }
            if total_to(tax_column(rows@), n) is None {
                lemma_total_none(tax_column(rows@), n, all);
            }
            if total_to(variance_column(rows@), n) is None {
                lemma_total_none(variance_column(rows@), n, all);
            }
        }
        gross = in_range(gross.checked_add(row.gross_sales))?;
        refunds = in_range(refunds.checked_add(row.refund_total))?;
        net = in_range(net.checked_add(row.net_total))?;
        tax = in_range(tax.checked_add(row.tax_total))?;
        variance = in_range(variance.checked_add(differs))?;
        i = i + 1;
    }
    Ok(Columns { gross, refunds, net, tax, variance })
}

/// Whether a list holds the summaries of sessions.
pub open spec fn are_summaries(
    rows: Seq<SessionSummaryRow>,
    sessions: Seq<Session>,
    book: Book,
    drawer: Seq<CashMovement>,
    registers: Seq<Register>,
    counts: Seq<SessionCount>,
    tempos: Seq<Tempo>,
) -> bool {
    &&& rows.len() == sessions.len()
    &&& forall|i: int|
        0 <= i < rows.len() ==> is_summary(
            #[trigger] rows[i],
            sessions[i],
            book,
            drawer,
            registers,
            counts,
            tempos,
        )
}

impl PosQueries {
    /// Sessions opened in the window, each with its money and its close, the
    /// one that was opened last first.
    pub fn sessions(
        service: &SessionService,
        book: &SaleService,
        registers: &Vec<Register>,
        tempos: &Vec<Tempo>,
        span: Span,
        register: Option<u128>,
    ) -> (r: Result<SessionSummaryView, Error>)
        ensures
            ({
                let asked = asked_for_to(
                    service.sessions@,
                    opt_day(span.from),
                    opt_day(span.to),
                    register,
                    service.sessions@.len(),
                );
                match r {
                    Ok(v) => {
                        &&& v.span == span
                        &&& exists|rows: Seq<SessionSummaryRow>|
                            v.rows@ == #[trigger] arranged(rows) && are_summaries(
                                rows,
                                asked,
                                book@,
                                service.drawer@,
                                registers@,
                                service.counts@,
                                tempos@,
                            )
                        &&& total(gross_column(v.rows@)) == Some(v.gross_sales@)
                        &&& total(refund_column(v.rows@)) == Some(v.refund_total@)
                        &&& total(net_column(v.rows@)) == Some(v.net_total@)
                        &&& total(tax_column(v.rows@)) == Some(v.tax_total@)
                        &&& total(variance_column(v.rows@)) == Some(v.cash_variance@)
                    },
                    Err(e) => e@ == Refusal::Overflow && (exists|i: int|
                        0 <= i < asked.len() && summary_overflows(
                            #[trigger] asked[i],
                            book@,
                            service.drawer@,
                            service.counts@,
                        ) || exists|rows: Seq<SessionSummaryRow>|
                        #[trigger] are_summaries(
                            rows,
                            asked,
                            book@,
                            service.drawer@,
                            registers@,
                            service.counts@,
                            tempos@,
                        ) && columns_overflow(arranged(rows))),
                }
            }),
    {
        let ghost from = opt_day(span.from);
        let ghost to = opt_day(span.to);
        let mut rows: Vec<SessionSummaryRow> = Vec::new();
        let mut i: usize = 0;
        while i < service.sessions.len()
            invariant
                i <= service.sessions.len(),
                from == opt_day(span.from),
                to == opt_day(span.to),
                are_summaries(
                    rows@,
                    asked_for_to(service.sessions@, from, to, register, i as nat),
                    book@,
                    service.drawer@,
                    registers@,
                    service.counts@,
                    tempos@,
                ),
            decreases service.sessions.len() - i,
        {
            let s = &service.sessions[i];
            let there = match register {
                Some(id) => s.register_id == id,
                None => true,
            };
            if there && span.holds(s.opened_at) {
                let row = match summarize(s, book, service, registers, tempos) {
                    Ok(row) => row,
                    Err(e) => {
                        proof {
                            let all = service.sessions@;
                            let p = |s: Session| is_asked_for(s, from, to, register);
                            lemma_kept_at(all, p, i as int, all.len());
                            let at = kept_to(all, p, i as nat).len() as int;
                            let asked = asked_for_to(all, from, to, register, all.len());
                            assert(asked[at] == all[i as int]);
                        }
                        return Err(e);
                    },
                };
                rows.push(row);
            }
            i = i + 1;
        }
        let ghost list = rows@;
        let rows = arrange(rows);
        assert(rows@ == arranged(list));
        let c = add_columns(&rows)?;
        Ok(
            SessionSummaryView {
                rows,
                span,
                gross_sales: c.gross,
                refund_total: c.refunds,
                net_total: c.net,
                tax_total: c.tax,
                cash_variance: c.variance,
            },
        )
    }
}

} // verus!
