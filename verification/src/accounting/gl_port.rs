//! The ledger's end of the posting port: one request, one posted entry.
//!
//! A request is booked at most once per source, a request that carries no
//! amount books nothing, and a role that no account carries leaves the request
//! unbooked until one does.

use super::account::{has_key, position_by_key, refused, Model as Account};
use super::journal::{
    are_postings, is_head, posted_refusal, Ledger, Naming, NewEntry, PostingInput, Written,
};
use crate::decimal::{max_places, pow10, rounded, worth, Decimal, Num};
use crate::error::{refusal, Error, Refusal};
use crate::port::{GlLine, GlPostingRequested};
use crate::search::{find, first_from, first_where, kept_to, lemma_first_from};
use crate::sums::{lemma_rounded_sign, tally, tally_to};
use crate::text::{cat3, cat4, id_text, opt_text, quote, quoted, same, show_id};
use vstd::prelude::*;

verus! {

/// Ledger money is booked to two decimals.
fn round_ledger(v: Decimal) -> (r: Decimal)
    ensures
        r@ == rounded(v@, 2),
{
    v.round_dp(2)
}

/// A line that carries an amount.
pub open spec fn carries(l: GlLine) -> bool {
    !(l.debit@.0 == 0 && l.credit@.0 == 0)
}

/// Those of the first `n` lines that carry an amount.
pub open spec fn carrying_to(lines: Seq<GlLine>, n: nat) -> Seq<GlLine> {
    kept_to(lines, |l: GlLine| carries(l), n)
}

/// The lines that carry an amount.
pub open spec fn carrying(lines: Seq<GlLine>) -> Seq<GlLine> {
    carrying_to(lines, lines.len())
}

/// The account that a line is booked to.
pub open spec fn account_for(accounts: Seq<Account>, l: GlLine) -> Option<Account> {
    first_where(accounts, has_key(l.account_role@))
}

/// Why the roles of a request cannot be resolved, where they cannot.
pub open spec fn role_refusal(
    accounts: Seq<Account>,
    lines: Seq<GlLine>,
    source: Seq<char>,
    from: int,
) -> Option<Refusal>
    decreases lines.len() - from,
{
    if from < 0 || from >= lines.len() {
        None
    } else if account_for(accounts, lines[from]) is None {
        Some(
            Refusal::Internal(
                "no account carries the role "@ + quoted(lines[from].account_role@)
                    + "; cannot book "@ + source,
            ),
        )
    } else {
        role_refusal(accounts, lines, source, from + 1)
    }
}

pub open spec fn is_booked_line(p: PostingInput, l: GlLine, accounts: Seq<Account>) -> bool {
    &&& account_for(accounts, l) is Some
    &&& p.account_id == account_for(accounts, l)->0.id
    &&& p.debit@ == rounded(l.debit@, 2)
    &&& p.credit@ == rounded(l.credit@, 2)
    &&& opt_text(p.memo) == opt_text(l.memo)
}

/// The entry that a request makes.
pub open spec fn is_requested_entry(
    e: NewEntry,
    req: GlPostingRequested,
    accounts: Seq<Account>,
) -> bool {
    let lines = carrying(req.lines@);
    &&& e.entry_date == req.entry_date
    &&& e.memo@ == req.memo@
    &&& opt_text(e.reference) == Some(req.source@)
    &&& e.currency@ == (match req.currency {
        Some(c) => c@,
        None => account_for(accounts, lines[0])->0.currency@,
    })
    &&& e.created_by is None
    &&& e.lines@.len() == lines.len()
    &&& forall|i: int|
        0 <= i < lines.len() ==> is_booked_line(#[trigger] e.lines@[i], lines[i], accounts)
}

/// What became of a request.
#[derive(Debug)]
pub enum Booking {
    /// It carries no amount, and is answered without an entry.
    Nothing,
    /// The entry with this id already holds it.
    Existing(u128),
    /// The entry to write.
    Fresh(Written),
}

/// Which books a request belongs in.
#[derive(Clone, Copy, Debug, PartialEq, Eq, Structural)]
pub enum Books {
    Tenant(u128),
    Main,
}

/// An entry of the journal by what it refers to.
#[derive(Debug)]
pub struct Reference {
    pub entry_id: u128,
    pub reference: Option<String>,
}

pub open spec fn refers_to(source: Seq<char>) -> spec_fn(Reference) -> bool {
    |r: Reference| opt_text(r.reference) == Some(source)
}

/// The ledger's end of the port: the books, and what their entries refer to.
#[derive(Debug)]
pub struct GlPort {
    pub ledger: Ledger,
    pub references: Vec<Reference>,
}

/// The books a request belongs in, given whether there are tenants and a main
/// database.
pub fn connection(tenant_id: Option<u128>, multitenant: bool, has_main: bool) -> (r: Result<
    Books,
    Error,
>)
    ensures
        match (tenant_id, multitenant) {
            (Some(id), true) => r == Ok::<Books, Error>(Books::Tenant(id)),
            (Some(id), false) => refusal(r) == Some(
                Refusal::Internal(
                    "GL posting names tenant "@ + id_text(id) + " but multitenancy is disabled"@,
                ),
            ),
            (None, _) => if has_main {
                r == Ok::<Books, Error>(Books::Main)
            } else {
                refusal(r) == Some(
                    Refusal::Internal("a tenantless GL posting needs a main database"@),
                )
            },
        },
{
    match tenant_id {
        Some(id) => {
            if multitenant {
                Ok(Books::Tenant(id))
            } else {
                let shown = show_id(id);
                Err(
                    Error::Internal(
                        cat3(
                            "GL posting names tenant ",
                            shown.as_str(),
                            " but multitenancy is disabled",
                        ),
                    ),
                )
            }
        },
        None => {
            if has_main {
                Ok(Books::Main)
            } else {
                Err(Error::Internal("a tenantless GL posting needs a main database".to_owned()))
            }
        },
    }
}

impl GlPort {
    /// The entry that a request with something to book makes.
    pub fn entry_of(&self, req: &GlPostingRequested) -> (r: Result<Option<NewEntry>, Error>)
        ensures
            ({
                let lines = carrying(req.lines@);
                if lines.len() == 0 {
                    r is Ok && r->Ok_0 is None
                } else {
                    &&& refusal(r) == role_refusal(self.ledger.accounts@, lines, req.source@, 0)
                    &&& r matches Ok(e) ==> e is Some && is_requested_entry(
                        e->0,
                        *req,
                        self.ledger.accounts@,
                    ) && e->0.lines@.len() <= req.lines@.len()
                }
            }),
    {
        let ghost accounts = self.ledger.accounts@;
        let ghost lines = carrying(req.lines@);
        let mut postings: Vec<PostingInput> = Vec::new();
        let mut currency: Option<String> = match &req.currency {
            Some(c) => Some(c.clone()),
            None => None,
        };
        let mut i: usize = 0;
        while i < req.lines.len()
            invariant
                i <= req.lines.len(),
                accounts == self.ledger.accounts@,
                lines == carrying(req.lines@),
                postings@.len() == carrying_to(req.lines@, i as nat).len(),
                postings@.len() <= i,
                postings@.len() <= lines.len(),
                carrying_to(req.lines@, i as nat) =~= lines.take(postings@.len() as int),
                forall|j: int|
                    0 <= j < postings@.len() ==> is_booked_line(
                        #[trigger] postings@[j],
                        lines[j],
                        accounts,
                    ),
                role_refusal(accounts, lines, req.source@, 0) == role_refusal(
                    accounts,
                    lines,
                    req.source@,
                    postings@.len() as int,
                ),
                req.currency is Some ==> opt_text(currency) == opt_text(req.currency),
                req.currency is None && postings@.len() == 0 ==> currency is None,
                req.currency is None && postings@.len() > 0 ==> opt_text(currency) == Some(
                    account_for(accounts, lines[0])->0.currency@,
                ),
            decreases req.lines.len() - i,
        {
            let line = &req.lines[i];
            proof {
                lemma_carrying_prefix(req.lines@, (i + 1) as nat, req.lines@.len());
            }
            if !(line.debit.is_zero() && line.credit.is_zero()) {
                assert(carrying_to(req.lines@, (i + 1) as nat).last() == *line);
                assert(lines[postings@.len() as int] == *line);
                match position_by_key(&self.ledger.accounts, line.account_role.as_str()) {
                    None => {
                        let role = quote(line.account_role.as_str());
                        return Err(
                            Error::Internal(
                                cat4(
                                    "no account carries the role ",
                                    role.as_str(),
                                    "; cannot book ",
                                    req.source.as_str(),
                                ),
                            ),
                        );
                    },
                    Some(k) => {
                        let acc = &self.ledger.accounts[k];
                        if currency.is_none() {
                            currency = Some(acc.currency.clone());
                        }
                        let memo = match &line.memo {
                            Some(t) => Some(t.clone()),
                            None => None,
                        };
                        postings.push(
                            PostingInput {
                                account_id: acc.id,
                                debit: round_ledger(line.debit),
                                credit: round_ledger(line.credit),
                                memo,
                            },
                        );
                    },
                }
            }
            i = i + 1;
        }
        assert(lines.take(postings@.len() as int) =~= lines);
        match currency {
            Some(currency) => {
                if postings.len() == 0 {
                    return Ok(None);
                }
                Ok(
                    Some(
                        NewEntry {
                            entry_date: req.entry_date,
                            memo: req.memo.clone(),
                            reference: Some(req.source.clone()),
                            currency,
                            lines: postings,
                            created_by: None,
                        },
                    ),
                )
            },
            None => Ok(None),
        }
    }

    fn find_reference(&self, source: &str) -> (r: Option<u128>)
        ensures
            r == (match first_where(self.references@, refers_to(source@)) {
                Some(held) => Some(held.entry_id),
                None => None,
            }),
    {
        let found = find(&self.references, Ghost(refers_to(source@)), |x: &Reference| -> (b: bool)
            ensures
                b == refers_to(source@)(*x),
            { 
                match &x.reference {
                    Some(own) => same(own.as_str(), source),
                    None => false,
                }
             });
        match found {
            Some(i) => Some(self.references[i].entry_id),
            None => None,
        }
    }

    /// Book a request: the entry that already refers to its source holds it, or
    /// a fresh one, posted under a number, does. `currency` is why the entry's
    /// currency code was refused, where it was.
    pub fn book(
        &mut self,
        req: &GlPostingRequested,
        naming: &Naming,
        number: String,
        currency: Option<Error>,
    ) -> (r: Result<Booking, Error>)
        requires
            req.lines@.len() <= i32::MAX,
            req.lines@.len() <= naming.line_ids@.len(),
        ensures
            final(self).ledger == old(self).ledger,
            !(r matches Ok(Booking::Fresh(_))) ==> final(self).references == old(
                self,
            ).references,
            r matches Ok(Booking::Fresh(_)) ==> {
                let new = final(self).references@.last();
                &&& new.entry_id == naming.id
                &&& refers_to(req.source@)(new)
                &&& final(self).references@ == old(self).references@.push(new)
            },
            ({
                let lines = carrying(req.lines@);
                let existing = first_where(old(self).references@, refers_to(req.source@));
                let roles = role_refusal(old(self).ledger.accounts@, lines, req.source@, 0);
                if lines.len() == 0 {
                    r == Ok::<Booking, Error>(Booking::Nothing)
                } else if existing is Some {
                    r == Ok::<Booking, Error>(Booking::Existing(existing->0.entry_id))
                } else if roles is Some {
                    refusal(r) == roles
                } else {
                    exists|e: NewEntry|
                        #![trigger posted_refusal(old(self).ledger, e, refused(currency))]
                        {
                            &&& is_requested_entry(e, *req, old(self).ledger.accounts@)
                            &&& refusal(r) == posted_refusal(
                                old(self).ledger,
                                e,
                                refused(currency),
                            )
                            &&& r matches Ok(b) ==> b is Fresh && is_head(
                                b->Fresh_0.entry,
                                e,
                                *naming,
                                Some(number@),
                            ) && are_postings(
                                b->Fresh_0.postings@,
                                e.lines@,
                                naming.line_ids@,
                            )
                        }
                }
            }),
    {
        let mut found = false;
        let mut i: usize = 0;
        while i < req.lines.len() && !found
            invariant
                i <= req.lines.len(),
                found ==> carrying(req.lines@).len() > 0,
                !found ==> carrying_to(req.lines@, i as nat).len() == 0,
            decreases req.lines.len() - i,
        {
            let line = &req.lines[i];
            proof {
                lemma_carrying_prefix(req.lines@, (i + 1) as nat, req.lines@.len());
            }
            found = !(line.debit.is_zero() && line.credit.is_zero());
            i = i + 1;
        }
        if !found {
            return Ok(Booking::Nothing);
        }
        if let Some(held) = self.find_reference(req.source.as_str()) {
            return Ok(Booking::Existing(held));
        }
        match self.entry_of(req)? {
            None => Ok(Booking::Nothing),
            Some(entry) => {
                let ghost e = entry;
                let written = self.ledger.create_posted_in(entry, naming, number, currency);
                assert(refusal(written) == posted_refusal(self.ledger, e, refused(currency)));
                match written {
                    Ok(w) => {
                        let source = req.source.clone();
                        self.references.push(Reference { entry_id: naming.id, reference: Some(source) });
                        Ok(Booking::Fresh(w))
                    },
                    Err(why) => Err(why),
                }
            },
        }
    }
}

proof fn lemma_carrying_prefix(lines: Seq<GlLine>, i: nat, n: nat)
    requires
        i <= n <= lines.len(),
    ensures
        carrying_to(lines, i).len() <= carrying_to(lines, n).len(),
        carrying_to(lines, i) =~= carrying_to(lines, n).take(carrying_to(lines, i).len() as int),
    decreases n,
{
    if i < n {
        lemma_carrying_prefix(lines, i, (n - 1) as nat);
    }
}

proof fn lemma_found_after_push(s: Seq<Reference>, x: Reference, source: Seq<char>, from: int)
    requires
        0 <= from <= s.len(),
    ensures
        first_from(s.push(x), refers_to(source), from) == (match first_from(
            s,
            refers_to(source),
            from,
        ) {
            Some(i) => Some(i),
            None => if refers_to(source)(x) {
                Some(s.len() as int)
            } else {
                None
            },
        }),
    decreases s.len() - from,
{
    if from < s.len() {
        assert(s.push(x)[from] == s[from]);
        lemma_found_after_push(s, x, source, from + 1);
    } else {
        assert(s.push(x)[from] == x);
        assert(first_from(s.push(x), refers_to(source), from + 1) is None);
    }
}

/// A source is booked once: an entry that was booked for it holds it from then
/// on, whatever else is booked.
pub proof fn a_source_is_booked_once(before: Seq<Reference>, new: Reference, source: Seq<char>)
    ensures
        first_where(before, refers_to(source)) is Some ==> first_where(
            before.push(new),
            refers_to(source),
        ) == first_where(before, refers_to(source)),
        first_where(before, refers_to(source)) is None && refers_to(source)(new) ==> first_where(
            before.push(new),
            refers_to(source),
        ) == Some(new),
{
    lemma_found_after_push(before, new, source, 0);
    lemma_first_from(before, refers_to(source), 0);
}

/// What the lines of an entry bring an account: debits less credits.
pub open spec fn brought(lines: Seq<PostingInput>, id: u128) -> int {
    tally(
        lines,
        |l: PostingInput|
            if l.account_id == id {
                worth(l.debit@) - worth(l.credit@)
            } else {
                0
            },
    )
}

/// What the lines of a request ask for a role, each amount to the cent: debits less
/// credits.
pub open spec fn asked_to(lines: Seq<GlLine>, role: Seq<char>, n: nat) -> int
    decreases n,
{
    if n == 0 {
        0
    } else {
        let l = lines[n - 1];
        asked_to(lines, role, (n - 1) as nat) + if l.account_role@ == role {
            worth(rounded(l.debit@, 2)) - worth(rounded(l.credit@, 2))
        } else {
            0
        }
    }
}

proof fn lemma_asked_prefix(a: Seq<GlLine>, b: Seq<GlLine>, role: Seq<char>, n: nat)
    requires
        n <= a.len(),
        n <= b.len(),
        forall|i: int| 0 <= i < n ==> a[i] == b[i],
    ensures
        asked_to(a, role, n) == asked_to(b, role, n),
    decreases n,
{
    if n > 0 {
        lemma_asked_prefix(a, b, role, (n - 1) as nat);
    }
}

proof fn lemma_carrying_asks(lines: Seq<GlLine>, role: Seq<char>, n: nat)
    requires
        n <= lines.len(),
    ensures
        asked_to(carrying_to(lines, n), role, carrying_to(lines, n).len()) == asked_to(
            lines,
            role,
            n,
        ),
    decreases n,
{
    if n > 0 {
        lemma_carrying_asks(lines, role, (n - 1) as nat);
        let rest = carrying_to(lines, (n - 1) as nat);
        let all = carrying_to(lines, n);
        let l = lines[n - 1];
        if carries(l) {
            assert(all == rest.push(l));
            lemma_asked_prefix(all, rest, role, rest.len());
        } else {
            assert(all == rest);
            lemma_nothing(l.debit@);
            lemma_nothing(l.credit@);
        }
    }
}

proof fn lemma_nothing(n: Num)
    ensures
        n.0 == 0 ==> worth(rounded(n, 2)) == 0,
{
    lemma_rounded_sign(n, 2);
    if n.0 == 0 {
        let r = rounded(n, 2);
        assert(worth(r) == 0) by (nonlinear_arith)
            requires
                r.0 == 0,
                worth(r) == r.0 * pow10((max_places() - r.1) as nat),
        ;
    }
}

proof fn lemma_brought(
    e: NewEntry,
    lines: Seq<GlLine>,
    accounts: Seq<Account>,
    k: int,
    role: Seq<char>,
    n: nat,
)
    requires
        n <= lines.len(),
        e.lines@.len() == lines.len(),
        forall|i: int|
            0 <= i < lines.len() ==> is_booked_line(#[trigger] e.lines@[i], lines[i], accounts),
        0 <= k < accounts.len(),
        opt_text(accounts[k].system_key) == Some(role),
        forall|i: int, j: int|
            0 <= i < j < accounts.len() ==> (#[trigger] accounts[i]).id != (
            #[trigger] accounts[j]).id,
        forall|j: int|
            0 <= j < accounts.len() && j != k ==> opt_text((#[trigger] accounts[j]).system_key)
                != Some(role),
    ensures
        tally_to(
            e.lines@,
            |l: PostingInput|
                if l.account_id == accounts[k].id {
                    worth(l.debit@) - worth(l.credit@)
                } else {
                    0
                },
            n,
        ) == asked_to(lines, role, n),
    decreases n,
{
    if n > 0 {
        lemma_brought(e, lines, accounts, k, role, (n - 1) as nat);
        let l = lines[n - 1];
        assert(is_booked_line(e.lines@[n - 1], l, accounts));
        lemma_first_from(accounts, has_key(l.account_role@), 0);
        let i = first_from(accounts, has_key(l.account_role@), 0)->0;
        assert(has_key(l.account_role@)(accounts[i]));
        if l.account_role@ == role {
            assert(i == k);
        } else {
            assert(i != k);
            assert(accounts[i].id != accounts[k].id);
        }
    }
}

/// A request is booked as it asks: the account that carries a role gains exactly what the
/// lines of the request ask for that role, each amount to the cent, whichever of them
/// carry nothing. Accounts are known by their ids, and a role by the one account that
/// carries it.
pub proof fn requests_are_booked_as_they_ask(
    e: NewEntry,
    req: GlPostingRequested,
    accounts: Seq<Account>,
    k: int,
    role: Seq<char>,
)
    requires
        is_requested_entry(e, req, accounts),
        0 <= k < accounts.len(),
        opt_text(accounts[k].system_key) == Some(role),
        forall|i: int, j: int|
            0 <= i < j < accounts.len() ==> (#[trigger] accounts[i]).id != (
            #[trigger] accounts[j]).id,
        forall|j: int|
            0 <= j < accounts.len() && j != k ==> opt_text((#[trigger] accounts[j]).system_key)
                != Some(role),
    ensures
        brought(e.lines@, accounts[k].id) == asked_to(req.lines@, role, req.lines@.len()),
        e.entry_date == req.entry_date,
        opt_text(e.reference) == Some(req.source@),
{
    let lines = carrying(req.lines@);
    lemma_brought(e, lines, accounts, k, role, lines.len());
    lemma_carrying_asks(req.lines@, role, req.lines@.len());
}

} // verus!
