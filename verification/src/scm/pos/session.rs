//! Sessions: the unit of accountability at the till.
//!
//! A session is one cashier's span at one register: opening float, sales, money
//! paid in and out, closing count. Nothing sells outside an open one, and a
//! register has at most one that is not closed.

use super::register::{find_register, register_id, Model as Register};
use crate::decimal::{Decimal, Num};
use crate::error::{refusal, Error, Refusal};
use crate::scm::inventory::stock::{money, round_money};
use crate::search::{find, first_from, first_where, lemma_first_from};
use crate::text::{
    cat2, cat3, id_text, is_blank, opt_text, quote, quoted, same, show_id, trim, trimmed,
};
use vstd::prelude::*;

verus! {

/// Where a session is in its life. `Closing` is a real resting state: counting
/// succeeded but consolidation has not yet. Sales stay blocked and the close
/// can be retried.
#[derive(Clone, Copy, Debug, PartialEq, Eq, Structural)]
pub enum SessionStatus {
    Open,
    Closing,
    Closed,
}

pub open spec fn status_text(s: SessionStatus) -> Seq<char> {
    match s {
        SessionStatus::Open => "open"@,
        SessionStatus::Closing => "closing"@,
        SessionStatus::Closed => "closed"@,
    }
}

impl SessionStatus {
    pub fn as_str(self) -> (r: &'static str)
        ensures
            r@ == status_text(self),
    {
        match self {
            SessionStatus::Open => "open",
            SessionStatus::Closing => "closing",
            SessionStatus::Closed => "closed",
        }
    }

    /// The status a stored text stands for.
    pub fn parse(value: &str) -> (r: Result<SessionStatus, Error>)
        ensures
            match r {
                Ok(s) => value@ == status_text(s),
                Err(e) => (forall|s: SessionStatus| value@ != #[trigger] status_text(s)) && e@
                    == Refusal::Internal("unknown pos session status "@ + quoted(value@)),
            },
    {
        if same(value, "open") {
            Ok(SessionStatus::Open)
        } else if same(value, "closing") {
            Ok(SessionStatus::Closing)
        } else if same(value, "closed") {
            Ok(SessionStatus::Closed)
        } else {
            let shown = quote(value);
            Err(Error::Internal(cat2("unknown pos session status ", shown.as_str())))
        }
    }
}

/// No two statuses are written alike, so reading back what was written gives
/// what was written.
pub proof fn status_texts_are_unambiguous(s: SessionStatus, t: SessionStatus)
    ensures
        status_text(s) == status_text(t) ==> s == t,
{
    reveal_strlit("open");
    reveal_strlit("closing");
    reveal_strlit("closed");
    assert("open"@[0] == 'o');
    assert("closing"@[0] == 'c');
    assert("closed"@[0] == 'c');
    assert("closing"@.len() == 7);
    assert("closed"@.len() == 6);
}

/// A session at a register.
#[derive(Debug)]
pub struct Session {
    pub id: u128,
    pub number: Option<String>,
    pub register_id: u128,
    pub cashier_id: u128,
    pub status: SessionStatus,
    /// When it was opened, in microseconds since the epoch.
    pub opened_at: i64,
    pub opening_float: Decimal,
    pub closed_at: Option<i64>,
    pub closed_by: Option<u128>,
    pub closing_note: Option<String>,
    /// The stock movement that consolidated it.
    pub move_id: Option<u128>,
    /// The source of the ledger entry that consolidated it.
    pub gl_source: Option<String>,
}

pub open spec fn session_id(id: u128) -> spec_fn(Session) -> bool {
    |s: Session| s.id == id
}

/// The place of the session with that id.
pub fn find_session(sessions: &Vec<Session>, id: u128) -> (r: Option<usize>)
    ensures
        match r {
            Some(i) => i < sessions@.len() && first_from(sessions@, session_id(id), 0) == Some(
                i as int,
            ) && sessions@[i as int].id == id,
            None => first_where(sessions@, session_id(id)) is None,
        },
{
    find(sessions, Ghost(session_id(id)), |x: &Session| -> (b: bool)
        ensures
            b == session_id(id)(*x),
        { x.id == id })
}

/// Whether a session still holds its register: it is open, or still closing.
pub open spec fn holds(s: Session, register: u128) -> bool {
    s.register_id == register && s.status != SessionStatus::Closed
}

pub open spec fn holder(register: u128) -> spec_fn(Session) -> bool {
    |s: Session| holds(s, register)
}

/// The place of the session that holds a register: the one to resume.
pub fn find_holder(sessions: &Vec<Session>, register: u128) -> (r: Option<usize>)
    ensures
        match r {
            Some(i) => i < sessions@.len() && first_where(sessions@, holder(register)) == Some(
                sessions@[i as int],
            ),
            None => first_where(sessions@, holder(register)) is None,
        },
{
    find(sessions, Ghost(holder(register)), |x: &Session| -> (b: bool)
        ensures
            b == holder(register)(*x),
        { x.register_id == register && x.status != SessionStatus::Closed })
}

/// Why a session cannot take part in something that needs it open, where it
/// cannot; `closed` is what is said of one that is not open.
pub open spec fn not_open_refusal(sessions: Seq<Session>, id: u128, closed: Seq<char>) -> Option<
    Refusal,
> {
    match first_where(sessions, session_id(id)) {
        None => Some(Refusal::NotFound("pos session "@ + id_text(id))),
        Some(s) => if s.status != SessionStatus::Open {
            Some(Refusal::Validation(closed))
        } else {
            None
        },
    }
}

pub(crate) fn no_session(id: u128) -> (r: Error)
    ensures
        r@ == Refusal::NotFound("pos session "@ + id_text(id)),
{
    let shown = show_id(id);
    Error::NotFound(cat2("pos session ", shown.as_str()))
}

/// Check that a session is open.
pub(crate) fn check_open(sessions: &Vec<Session>, id: u128, closed: &str) -> (r: Result<
    usize,
    Error,
>)
    ensures
        refusal(r) == not_open_refusal(sessions@, id, closed@),
        r matches Ok(i) ==> i < sessions@.len() && first_from(sessions@, session_id(id), 0) == Some(
            i as int,
        ),
{
    match find_session(sessions, id) {
        None => Err(no_session(id)),
        Some(i) => {
            if sessions[i].status != SessionStatus::Open {
                return Err(Error::Validation(closed.to_owned()));
            }
            Ok(i)
        },
    }
}

/// Money paid into the drawer, or out of it.
#[derive(Clone, Copy, Debug, PartialEq, Eq, Structural)]
pub enum DrawerKind {
    PaidIn,
    PaidOut,
}

/// An event at the drawer.
#[derive(Debug)]
pub struct CashMovement {
    pub id: u128,
    pub session_id: u128,
    pub kind: DrawerKind,
    pub amount: Decimal,
    pub reason: String,
    pub created_by: Option<u128>,
}

/// What should have been there and what was, per tender, as it was counted at
/// the close.
#[derive(Debug)]
pub struct SessionCount {
    pub session_id: u128,
    pub tender: String,
    pub expected: Decimal,
    pub counted: Decimal,
}

/// The sessions, what happened at their drawers, and what was counted.
#[derive(Debug)]
pub struct SessionService {
    pub sessions: Vec<Session>,
    pub drawer: Vec<CashMovement>,
    pub counts: Vec<SessionCount>,
}

/// Why a session cannot be opened, where it cannot.
pub open spec fn open_refusal(
    sessions: Seq<Session>,
    registers: Seq<Register>,
    register: u128,
    opening_float: Num,
) -> Option<Refusal> {
    if opening_float.0 < 0 {
        Some(Refusal::Validation("the opening float must not be negative"@))
    } else {
        match first_where(registers, register_id(register)) {
            None => Some(Refusal::NotFound("register "@ + id_text(register))),
            Some(r) => if !r.is_active {
                Some(Refusal::Validation("register "@ + r.code@ + " is not active"@))
            } else if first_where(sessions, holder(register)) is Some {
                Some(Refusal::Conflict("register "@ + r.code@ + " already has an open session"@))
            } else {
                None
            },
        }
    }
}

/// A session that was just opened.
pub open spec fn is_opened(
    s: Session,
    id: u128,
    number: Seq<char>,
    register: u128,
    cashier: u128,
    opening_float: Num,
    now: i64,
) -> bool {
    &&& s.id == id
    &&& opt_text(s.number) == Some(number)
    &&& s.register_id == register
    &&& s.cashier_id == cashier
    &&& s.status == SessionStatus::Open
    &&& s.opened_at == now
    &&& s.opening_float@ == money(opening_float)
    &&& s.closed_at is None
    &&& s.closed_by is None
    &&& s.closing_note is None
    &&& s.move_id is None
    &&& s.gl_source is None
}

/// Why an event at the drawer is refused, where it is.
pub open spec fn drawer_refusal(
    sessions: Seq<Session>,
    session: u128,
    kind: Seq<char>,
    amount: Num,
    reason: Seq<char>,
) -> Option<Refusal> {
    if kind != "paid_in"@ && kind != "paid_out"@ {
        Some(Refusal::Validation("kind must be paid_in or paid_out"@))
    } else if amount.0 <= 0 {
        Some(Refusal::Validation("the amount must be positive"@))
    } else if is_blank(reason) {
        Some(Refusal::Validation("a drawer movement needs its reason"@))
    } else {
        not_open_refusal(sessions, session, "the session is not open"@)
    }
}

pub open spec fn drawer_kind(kind: Seq<char>) -> DrawerKind {
    if kind == "paid_in"@ {
        DrawerKind::PaidIn
    } else {
        DrawerKind::PaidOut
    }
}

impl DrawerKind {
    /// The stored form of a drawer movement's kind.
    pub fn as_str(self) -> (r: &'static str)
        ensures
            r@ == (match self {
                DrawerKind::PaidIn => "paid_in"@,
                DrawerKind::PaidOut => "paid_out"@,
            }),
    {
        match self {
            DrawerKind::PaidIn => "paid_in",
            DrawerKind::PaidOut => "paid_out",
        }
    }

    /// Read the stored form.
    pub fn parse(value: &str) -> (r: Result<DrawerKind, Error>)
        ensures
            if value@ == "paid_in"@ || value@ == "paid_out"@ {
                r == Ok::<DrawerKind, Error>(drawer_kind(value@))
            } else {
                refusal(r) == Some(Refusal::Validation("kind must be paid_in or paid_out"@))
            },
    {
        if same(value, "paid_in") {
            Ok(DrawerKind::PaidIn)
        } else if same(value, "paid_out") {
            Ok(DrawerKind::PaidOut)
        } else {
            Err(Error::Validation("kind must be paid_in or paid_out".to_owned()))
        }
    }
}

impl SessionService {
    /// Open a session on a register. A refused one changes nothing.
    pub fn open(
        &mut self,
        registers: &Vec<Register>,
        register: u128,
        opening_float: Decimal,
        cashier: u128,
        id: u128,
        number: String,
        now: i64,
    ) -> (r: Result<(), Error>)
        ensures
            refusal(r) == open_refusal(
                old(self).sessions@,
                registers@,
                register,
                opening_float@,
            ),
            r is Err ==> *final(self) == *old(self),
            final(self).drawer == old(self).drawer,
            final(self).counts == old(self).counts,
            r is Ok ==> {
                let new = final(self).sessions@.last();
                &&& is_opened(new, id, number@, register, cashier, opening_float@, now)
                &&& final(self).sessions@ == old(self).sessions@.push(new)
            },
    {
        if opening_float.is_negative() {
            return Err(Error::Validation("the opening float must not be negative".to_owned()));
        }
        let i = match find_register(registers, register) {
            Some(i) => i,
            None => {
                let shown = show_id(register);
                return Err(Error::NotFound(cat2("register ", shown.as_str())));
            },
        };
        let code = registers[i].code.as_str();
        if !registers[i].is_active {
            return Err(Error::Validation(cat3("register ", code, " is not active")));
        }
        if find_holder(&self.sessions, register).is_some() {
            return Err(
                Error::Conflict(cat3("register ", code, " already has an open session")),
            );
        }
        self.sessions.push(
            Session {
                id,
                number: Some(number),
                register_id: register,
                cashier_id: cashier,
                status: SessionStatus::Open,
                opened_at: now,
                opening_float: round_money(opening_float),
                closed_at: None,
                closed_by: None,
                closing_note: None,
                move_id: None,
                gl_source: None,
            },
        );
        Ok(())
    }

    /// The session that holds a register, to resume after a refresh.
    pub fn current(&self, register: u128) -> (r: Option<&Session>)
        ensures
            match first_where(self.sessions@, holder(register)) {
                Some(s) => r is Some && *r->0 == s,
                None => r is None,
            },
    {
        match find_holder(&self.sessions, register) {
            Some(i) => Some(&self.sessions[i]),
            None => None,
        }
    }

    /// Record money paid into or out of the drawer. A refused event changes
    /// nothing.
    pub fn cash_movement(
        &mut self,
        session: u128,
        kind: &str,
        amount: Decimal,
        reason: &str,
        by: Option<u128>,
        id: u128,
    ) -> (r: Result<(), Error>)
        ensures
            refusal(r) == drawer_refusal(
                old(self).sessions@,
                session,
                kind@,
                amount@,
                reason@,
            ),
            r is Err ==> *final(self) == *old(self),
            final(self).sessions == old(self).sessions,
            final(self).counts == old(self).counts,
            r is Ok ==> {
                let new = final(self).drawer@.last();
                &&& new.id == id
                &&& new.session_id == session
                &&& new.kind == drawer_kind(kind@)
                &&& new.amount@ == money(amount@)
                &&& new.reason@ == trimmed(reason@)
                &&& new.created_by == by
                &&& final(self).drawer@ == old(self).drawer@.push(new)
            },
    {
        let kind = DrawerKind::parse(kind)?;
        if !amount.is_positive() {
            return Err(Error::Validation("the amount must be positive".to_owned()));
        }
        let why = trim(reason);
        if why.as_str().unicode_len() == 0 {
            return Err(Error::Validation("a drawer movement needs its reason".to_owned()));
        }
        let _ = check_open(&self.sessions, session, "the session is not open")?;
        self.drawer.push(
            CashMovement {
                id,
                session_id: session,
                kind,
                amount: round_money(amount),
                reason: why,
                created_by: by,
            },
        );
        Ok(())
    }
}

// ---------------------------------------------------------------------------
// Laws
// ---------------------------------------------------------------------------

/// A register has at most one session that is not closed.
pub open spec fn one_holder(sessions: Seq<Session>) -> bool {
    forall|i: int, j: int|
        0 <= i < sessions.len() && 0 <= j < sessions.len() && #[trigger] sessions[i].register_id
            == #[trigger] sessions[j].register_id && sessions[i].status != SessionStatus::Closed
            && sessions[j].status != SessionStatus::Closed ==> i == j
}

/// Opening a session keeps one at most per register.
pub proof fn opening_keeps_one_session_per_register(
    sessions: Seq<Session>,
    registers: Seq<Register>,
    register: u128,
    opening_float: Num,
    new: Session,
)
    requires
        one_holder(sessions),
        open_refusal(sessions, registers, register, opening_float) is None,
        new.register_id == register,
    ensures
        one_holder(sessions.push(new)),
{
    lemma_first_from(sessions, holder(register), 0);
    assert forall|i: int| 0 <= i < sessions.len() implies !holds(
        #[trigger] sessions[i],
        register,
    ) by {
        assert(!holder(register)(sessions[i]));
    }
}

/// Nothing sells while a session is closing, and nothing after it: its status
/// only ever moves on.
pub open spec fn moves_on(a: SessionStatus, b: SessionStatus) -> bool {
    match a {
        SessionStatus::Open => true,
        SessionStatus::Closing => b != SessionStatus::Open,
        SessionStatus::Closed => b == SessionStatus::Closed,
    }
}

/// A change of one session that only moves it on keeps one at most per
/// register.
pub proof fn moving_on_keeps_one_session_per_register(sessions: Seq<Session>, i: int, next: Session)
    requires
        one_holder(sessions),
        0 <= i < sessions.len(),
        next.register_id == sessions[i].register_id,
        moves_on(sessions[i].status, next.status),
    ensures
        one_holder(sessions.update(i, next)),
{
}

/// A session that is opened is at a register that is there and active, and that no other
/// session holds, with a float that is not negative. Registers are known by their ids.
pub proof fn sessions_open_at_a_free_register(
    sessions: Seq<Session>,
    registers: Seq<Register>,
    register: u128,
    opening_float: Num,
    k: int,
)
    requires
        open_refusal(sessions, registers, register, opening_float) is None,
        0 <= k < registers.len(),
        registers[k].id == register,
        forall|j: int|
            0 <= j < registers.len() && j != k ==> (#[trigger] registers[j]).id != register,
    ensures
        registers[k].is_active,
        opening_float.0 >= 0,
        forall|i: int|
            0 <= i < sessions.len() && (#[trigger] sessions[i]).register_id == register
                ==> sessions[i].status == SessionStatus::Closed,
{
    lemma_first_from(registers, register_id(register), 0);
    assert(register_id(register)(registers[k]));
    lemma_first_from(sessions, holder(register), 0);
    assert forall|i: int|
        0 <= i < sessions.len() && (#[trigger] sessions[i]).register_id
            == register implies sessions[i].status == SessionStatus::Closed by {
        assert(!holder(register)(sessions[i]));
    }
}

/// What moves through a drawer does so in an open session, for a reason and in a positive
/// amount, into the drawer or out of it as it says. Sessions are known by their ids.
pub proof fn drawers_move_in_open_sessions(
    sessions: Seq<Session>,
    session: u128,
    kind: Seq<char>,
    amount: Num,
    reason: Seq<char>,
    k: int,
)
    requires
        drawer_refusal(sessions, session, kind, amount, reason) is None,
        0 <= k < sessions.len(),
        sessions[k].id == session,
        forall|j: int| 0 <= j < sessions.len() && j != k ==> (#[trigger] sessions[j]).id != session,
    ensures
        sessions[k].status == SessionStatus::Open,
        amount.0 > 0,
        !is_blank(reason),
        kind == "paid_in"@ && drawer_kind(kind) == DrawerKind::PaidIn || kind == "paid_out"@
            && drawer_kind(kind) == DrawerKind::PaidOut,
{
    reveal_strlit("paid_in");
    reveal_strlit("paid_out");
    assert("paid_in"@.len() == 7 && "paid_out"@.len() == 8);
    lemma_first_from(sessions, session_id(session), 0);
    assert(session_id(session)(sessions[k]));
}

} // verus!
