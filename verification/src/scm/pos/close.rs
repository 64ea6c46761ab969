//! Closing a session, where the till meets the books, in two deliberate steps.
//!
//! Counting stores what was expected and what was counted, and parks the
//! session as closing. Consolidation brings every captured line, net of
//! refunds, into one stock movement and one entry of takings. A session whose
//! consolidation failed stays closing, and the close can be retried.

use super::sale::{is_tender, known_tender, Book, SaleService};
use super::session::{
    find_session, no_session, session_id, CashMovement, Session, SessionCount, SessionService,
    SessionStatus,
};
use super::takings::{
    card_net, expected_by_tender, expected_cash, is_money, money_in_range, mpesa_net, session_money,
    ByTender, SessionMoney,
};
use crate::decimal::{opt, worth, zero, Decimal, Num};
use crate::error::{refusal, Error, Refusal};
use crate::scm::inventory::stock::{money, round_money};
use crate::search::{find, first_from, first_where, kept_to};
use crate::text::{
    cat2, cat3, id_text, int_text, keep_trimmed, opt_text, quote, quoted, same, show_int,
    trimmed_unless_blank,
};
use vstd::prelude::*;

verus! {

// ---------------------------------------------------------------------------
// Counting
// ---------------------------------------------------------------------------

/// What was counted of a tender.
#[derive(Debug)]
pub struct CountInput {
    pub tender: String,
    pub counted: Decimal,
}

pub open spec fn count_of(tender: Seq<char>) -> spec_fn(CountInput) -> bool {
    |c: CountInput| c.tender@ == tender
}

/// What was counted of a tender, to the cent, where it was counted.
pub open spec fn provided(counts: Seq<CountInput>, tender: Seq<char>) -> Option<Num> {
    match first_where(counts, count_of(tender)) {
        Some(c) => Some(money(c.counted@)),
        None => None,
    }
}

/// The first refusal among the first `n` counts: each names a known tender,
/// none is negative, and no tender is counted twice.
pub open spec fn counts_refusal(counts: Seq<CountInput>, n: nat) -> Option<Refusal>
    decreases n,
{
    if n == 0 {
        None
    } else {
        match counts_refusal(counts, (n - 1) as nat) {
            Some(r) => Some(r),
            None => {
                let c = counts[n - 1];
                if !is_tender(c.tender@) {
                    Some(
                        Refusal::Validation(
                            "unknown tender "@ + quoted(c.tender@) + " in the counts"@,
                        ),
                    )
                } else if c.counted@.0 < 0 {
                    Some(Refusal::Validation("a counted amount must not be negative"@))
                } else if first_where(counts.take(n - 1), count_of(c.tender@)) is Some {
                    Some(
                        Refusal::Validation(
                            "tender "@ + quoted(c.tender@) + " is counted twice"@,
                        ),
                    )
                } else {
                    None
                }
            },
        }
    }
}

/// Why a tender that took money was not counted, where it was not.
pub open spec fn uncounted_refusal(counts: Seq<CountInput>, tender: Seq<char>, expected: Num) -> Option<
    Refusal,
> {
    if provided(counts, tender) is None && expected.0 != 0 {
        Some(
            Refusal::Validation(
                "tender "@ + quoted(tender) + " has takings; count it before closing"@,
            ),
        )
    } else {
        None
    }
}

pub open spec fn counted_or_zero(counts: Seq<CountInput>, tender: Seq<char>) -> Num {
    match provided(counts, tender) {
        Some(n) => n,
        None => zero(),
    }
}

pub open spec fn varies(counts: Seq<CountInput>, tender: Seq<char>, expected: Num) -> bool {
    worth(counted_or_zero(counts, tender)) != worth(expected)
}

/// What each tender should hold.
pub struct Expected {
    pub cash: Num,
    pub mpesa: Num,
    pub card: Num,
}

impl View for ByTender {
    type V = Expected;

    open spec fn view(&self) -> Expected {
        Expected { cash: self.cash@, mpesa: self.mpesa@, card: self.card@ }
    }
}

/// Why counts are refused, where they are: every tender that took money is
/// counted, and a note explains any difference.
pub open spec fn counting_refusal(
    counts: Seq<CountInput>,
    note: Option<Seq<char>>,
    e: Expected,
) -> Option<Refusal> {
    if let Some(r) = counts_refusal(counts, counts.len()) {
        Some(r)
    } else if let Some(r) = uncounted_refusal(counts, "cash"@, e.cash) {
        Some(r)
    } else if let Some(r) = uncounted_refusal(counts, "mpesa"@, e.mpesa) {
        Some(r)
    } else if let Some(r) = uncounted_refusal(counts, "card"@, e.card) {
        Some(r)
    } else if (varies(counts, "cash"@, e.cash) || varies(counts, "mpesa"@, e.mpesa) || varies(
        counts,
        "card"@,
        e.card,
    )) && trimmed_unless_blank(note) is None {
        Some(
            Refusal::Validation(
                "the drawer does not match; a closing note explaining the difference is required"@,
            ),
        )
    } else {
        None
    }
}

/// What a count says.
pub struct CountFacts {
    pub session_id: u128,
    pub tender: Seq<char>,
    pub expected: Num,
    pub counted: Num,
}

impl View for SessionCount {
    type V = CountFacts;

    open spec fn view(&self) -> CountFacts {
        CountFacts {
            session_id: self.session_id,
            tender: self.tender@,
            expected: self.expected@,
            counted: self.counted@,
        }
    }
}

pub open spec fn all_counts(counts: Seq<SessionCount>) -> Seq<CountFacts> {
    counts.map_values(|c: SessionCount| c@)
}

/// The count that is stored of a tender: none where nothing was due and
/// nothing was there.
pub open spec fn kept_count(
    session: u128,
    counts: Seq<CountInput>,
    tender: Seq<char>,
    expected: Num,
) -> Seq<CountFacts> {
    let counted = counted_or_zero(counts, tender);
    if expected.0 == 0 && counted.0 == 0 {
        Seq::empty()
    } else {
        seq![CountFacts { session_id: session, tender, expected, counted }]
    }
}

/// The counts that are stored of a session.
pub open spec fn kept_counts(session: u128, counts: Seq<CountInput>, e: Expected) -> Seq<CountFacts> {
    kept_count(session, counts, "cash"@, e.cash) + kept_count(session, counts, "mpesa"@, e.mpesa)
        + kept_count(session, counts, "card"@, e.card)
}

/// The first `n` counts without those of a session.
pub open spec fn others_to(counts: Seq<CountFacts>, session: u128, n: nat) -> Seq<CountFacts> {
    kept_to(counts, |c: CountFacts| c.session_id != session, n)
}

fn find_provided(counts: &Vec<CountInput>, tender: &str) -> (r: Option<Decimal>)
    ensures
        opt(r) == provided(counts@, tender@),
{
    let found = find(counts, Ghost(count_of(tender@)), |x: &CountInput| -> (b: bool)
        ensures
            b == count_of(tender@)(*x),
        { same(x.tender.as_str(), tender) });
    match found {
        Some(i) => Some(round_money(counts[i].counted)),
        None => None,
    }
}

fn counted_before(counts: &Vec<CountInput>, tender: &str, n: usize) -> (r: bool)
    requires
        n <= counts@.len(),
    ensures
        r == (first_where(counts@.take(n as int), count_of(tender@)) is Some),
{
    let ghost part = counts@.take(n as int);
    let mut i: usize = 0;
    while i < n
        invariant
            i <= n <= counts.len(),
            part == counts@.take(n as int),
            first_from(part, count_of(tender@), 0) == first_from(
                part,
                count_of(tender@),
                i as int,
            ),
        decreases n - i,
    {
        assert(part[i as int] == counts@[i as int]);
        if same(counts[i].tender.as_str(), tender) {
            return true;
        }
        i = i + 1;
    }
    false
}

proof fn lemma_counts_stop(counts: Seq<CountInput>, i: nat, n: nat)
    requires
        i <= n,
        counts_refusal(counts, i) is Some,
    ensures
        counts_refusal(counts, n) == counts_refusal(counts, i),
    decreases n,
{
    if i < n {
        lemma_counts_stop(counts, i, (n - 1) as nat);
    }
}

fn check_counts(counts: &Vec<CountInput>) -> (r: Result<(), Error>)
    ensures
        refusal(r) == counts_refusal(counts@, counts@.len()),
{
    let mut i: usize = 0;
    while i < counts.len()
        invariant
            i <= counts.len(),
            counts_refusal(counts@, i as nat) is None,
        decreases counts.len() - i,
    {
        proof {
            if counts_refusal(counts@, (i + 1) as nat) is Some {
                lemma_counts_stop(counts@, (i + 1) as nat, counts@.len());
            }
        }
        let c = &counts[i];
        if !known_tender(c.tender.as_str()) {
            let shown = quote(c.tender.as_str());
            return Err(
                Error::Validation(cat3("unknown tender ", shown.as_str(), " in the counts")),
            );
        }
        if c.counted.is_negative() {
            return Err(Error::Validation("a counted amount must not be negative".to_owned()));
        }
        if counted_before(counts, c.tender.as_str(), i) {
            let shown = quote(c.tender.as_str());
            return Err(Error::Validation(cat3("tender ", shown.as_str(), " is counted twice")));
        }
        i = i + 1;
    }
    Ok(())
}

/// What was counted of a tender; refused where it was not, and took money.
fn check_counted(counts: &Vec<CountInput>, tender: &str, expected: Decimal) -> (r: Result<
    Decimal,
    Error,
>)
    ensures
        refusal(r) == uncounted_refusal(counts@, tender@, expected@),
        r matches Ok(n) ==> n@ == counted_or_zero(counts@, tender@),
{
    match find_provided(counts, tender) {
        Some(n) => Ok(n),
        None => {
            if !expected.is_zero() {
                let shown = quote(tender);
                return Err(
                    Error::Validation(
                        cat3("tender ", shown.as_str(), " has takings; count it before closing"),
                    ),
                );
            }
            Ok(Decimal::zero())
        },
    }
}

fn push_count(
    out: &mut Vec<SessionCount>,
    session: u128,
    tender: &str,
    expected: Decimal,
    counted: Decimal,
)
    ensures
        all_counts(final(out)@) == all_counts(old(out)@) + (if expected@.0 == 0 && counted@.0 == 0 {
            Seq::empty()
        } else {
            seq![
                CountFacts {
                    session_id: session,
                    tender: tender@,
                    expected: expected@,
                    counted: counted@,
                },
            ]
        }),
{
    let ghost held = all_counts(out@);
    if !(expected.is_zero() && counted.is_zero()) {
        let row = SessionCount {
            session_id: session,
            tender: tender.to_owned(),
            expected,
            counted,
        };
        out.push(row);
        assert(all_counts(out@) =~= held + seq![row@]);
    } else {
        assert(all_counts(out@) =~= held + Seq::empty());
    }
}

fn without(counts: &Vec<SessionCount>, session: u128) -> (r: Vec<SessionCount>)
    ensures
        all_counts(r@) == others_to(all_counts(counts@), session, counts@.len()),
{
    let ghost all = all_counts(counts@);
    let mut out: Vec<SessionCount> = Vec::new();
    assert(all_counts(out@) =~= others_to(all, session, 0));
    let mut i: usize = 0;
    while i < counts.len()
        invariant
            i <= counts.len(),
            all == all_counts(counts@),
            all_counts(out@) == others_to(all, session, i as nat),
        decreases counts.len() - i,
    {
        let c = &counts[i];
        assert(all[i as int] == c@);
        if c.session_id != session {
            let ghost held = all_counts(out@);
            let row = SessionCount {
                session_id: c.session_id,
                tender: c.tender.clone(),
                expected: c.expected,
                counted: c.counted,
            };
            out.push(row);
            assert(all_counts(out@) =~= held.push(row@));
        }
        i = i + 1;
    }
    out
}

/// Why closing a session is refused before anything is counted, where it is.
pub open spec fn close_refusal(sessions: Seq<Session>, id: u128, unsynced: i64) -> Option<Refusal> {
    if unsynced > 0 {
        Some(
            Refusal::Validation(
                int_text(unsynced as int)
                    + " sales are still waiting to sync; drain the queue before closing"@,
            ),
        )
    } else {
        match first_where(sessions, session_id(id)) {
            None => Some(Refusal::NotFound("pos session "@ + id_text(id))),
            Some(s) => if s.status == SessionStatus::Closed {
                Some(Refusal::Validation("the session is already closed"@))
            } else {
                None
            },
        }
    }
}

/// Whether amounts are what the tenders of a session should hold.
pub open spec fn are_expected(
    e: Expected,
    book: Book,
    drawer: Seq<CashMovement>,
    s: Session,
) -> bool {
    exists|m: SessionMoney|
        #[trigger] is_money(m, book, drawer, s.id) && expected_cash(m, s.opening_float@) == Some(
            e.cash,
        ) && mpesa_net(m) == Some(e.mpesa) && card_net(m) == Some(e.card)
}

/// Whether what the tenders of a session should hold leaves the range.
pub open spec fn expectation_overflows(book: Book, drawer: Seq<CashMovement>, s: Session) -> bool {
    !money_in_range(book, drawer, s.id) || exists|m: SessionMoney|
        #[trigger] is_money(m, book, drawer, s.id) && (expected_cash(m, s.opening_float@) is None
            || mpesa_net(m) is None || card_net(m) is None)
}

impl SessionService {
    /// What the tenders of a session should hold now.
    pub fn expected(&self, book: &SaleService, i: usize) -> (r: Result<ByTender, Error>)
        requires
            i < self.sessions@.len(),
        ensures
            match r {
                Ok(e) => are_expected(e@, book@, self.drawer@, self.sessions@[i as int]),
                Err(e) => e@ == Refusal::Overflow && expectation_overflows(
                    book@,
                    self.drawer@,
                    self.sessions@[i as int],
                ),
            },
    {
        let s = &self.sessions[i];
        let m = session_money(book, &self.drawer, s.id)?;
        let e = expected_by_tender(&m, s.opening_float);
        e
    }

    /// Count the drawer and park the session as closing, with the counts
    /// stored. A session that is closing already keeps the counts it has: its
    /// consolidation is retried. A refused close changes nothing.
    pub fn close(
        &mut self,
        book: &SaleService,
        id: u128,
        counts: &Vec<CountInput>,
        note: Option<String>,
        unsynced: i64,
    ) -> (r: Result<(), Error>)
        ensures
            final(self).drawer == old(self).drawer,
            r is Err ==> *final(self) == *old(self),
            match close_refusal(old(self).sessions@, id, unsynced) {
                Some(why) => refusal(r) == Some(why),
                None => {
                    let i = first_from(old(self).sessions@, session_id(id), 0)->0;
                    let s = old(self).sessions@[i];
                    if s.status == SessionStatus::Closing {
                        r is Ok && *final(self) == *old(self)
                    } else {
                        counting_outcome(
                            r,
                            *old(self),
                            *final(self),
                            book@,
                            i,
                            counts@,
                            opt_text(note),
                        )
                    }
                },
            },
    {
        if unsynced > 0 {
            let shown = show_int(unsynced);
            return Err(
                Error::Validation(
                    cat2(
                        shown.as_str(),
                        " sales are still waiting to sync; drain the queue before closing",
                    ),
                ),
            );
        }
        let i = match find_session(&self.sessions, id) {
            Some(i) => i,
            None => {
                return Err(no_session(id));
            },
        };
        match self.sessions[i].status {
            SessionStatus::Closed => {
                return Err(Error::Validation("the session is already closed".to_owned()));
            },
            SessionStatus::Closing => {
                return Ok(());
            },
            SessionStatus::Open => {},
        }
        let e = self.expected(book, i)?;
        check_counts(counts)?;
        let cash = check_counted(counts, "cash", e.cash)?;
        let mpesa = check_counted(counts, "mpesa", e.mpesa)?;
        let card = check_counted(counts, "card", e.card)?;
        let differs = !cash.equals(&e.cash) || !mpesa.equals(&e.mpesa) || !card.equals(&e.card);
        let closing_note = keep_trimmed(note);
        if differs && closing_note.is_none() {
            return Err(
                Error::Validation(
                    "the drawer does not match; a closing note explaining the difference is required".to_owned(),
                ),
            );
        }
        let mut stored = without(&self.counts, id);
        push_count(&mut stored, id, "cash", e.cash, cash);
        push_count(&mut stored, id, "mpesa", e.mpesa, mpesa);
        push_count(&mut stored, id, "card", e.card, card);
        proof {
            let rest = others_to(all_counts(self.counts@), id, self.counts@.len());
            assert(all_counts(stored@) =~= rest + kept_counts(id, counts@, e@));
        }
        self.counts = stored;
        let row = &mut self.sessions[i];
        row.status = SessionStatus::Closing;
        row.closing_note = closing_note;
        Ok(())
    }
}

/// What counting an open session, at place `i`, may come to.
pub open spec fn counting_outcome(
    r: Result<(), Error>,
    before: SessionService,
    after: SessionService,
    book: Book,
    i: int,
    counts: Seq<CountInput>,
    note: Option<Seq<char>>,
) -> bool {
    let s = before.sessions@[i];
    ||| refusal(r) == Some(Refusal::Overflow) && expectation_overflows(book, before.drawer@, s)
    ||| exists|e: Expected|
        #[trigger] are_expected(e, book, before.drawer@, s) && refusal(r) == counting_refusal(
            counts,
            note,
            e,
        ) && (r is Ok ==> {
            let next = after.sessions@[i];
            &&& next.status == SessionStatus::Closing
            &&& opt_text(next.closing_note) == trimmed_unless_blank(note)
            &&& next == (Session {
                status: SessionStatus::Closing,
                closing_note: next.closing_note,
                ..s
            })
            &&& after.sessions@ == before.sessions@.update(i, next)
            &&& all_counts(after.counts@) == others_to(
                all_counts(before.counts@),
                s.id,
                before.counts@.len(),
            ) + kept_counts(s.id, counts, e)
        })
}

} // verus!
