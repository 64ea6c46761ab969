//! Double-entry journal: entries and their debit and credit postings.
//!
//! An entry is created as a draft, which can be edited and deleted, and then
//! posted: the point at which it must balance and becomes immutable. A posted
//! entry is corrected only by a reversal, a mirror entry with debits and
//! credits swapped that is posted at once and linked back to the original.

use super::account::{has_children, has_id, has_parent, position_by_id, refused, Model as Account};
use super::fiscal::{
    ensure_open_for_post, first_cover, status_text as period_text, Period, PeriodStatus,
};
use crate::date::{day_number, earlier, is_date, iso_text, lemma_day_number_orders, Date};
use crate::decimal::{fixed_text, max_places, normalized, opt, pow10, worth, zero, Decimal, Num};
use crate::error::{either, refusal, Error, Refusal};
use crate::search::{any, first_from, first_where, lemma_first_from};
use crate::sums::{
    adds_exactly, lemma_normalized_worth, lemma_pow10_adds, lemma_pow10_positive, lemma_sum_exact,
    lemma_total_none, lemma_worth_sign, total, total_to, worth_of, worth_to,
};
use crate::text::{
    blank, cat2, cat3, cat4, id_text, is_blank, keep_text, opt_text, quote, quoted, same, show_id,
    trim, trimmed, unless_blank,
};
use vstd::prelude::*;

verus! {

/// Where a journal entry is in its lifecycle.
#[derive(Clone, Copy, Debug, PartialEq, Eq, Structural)]
pub enum EntryStatus {
    /// Being composed; editable, not yet in the ledger.
    Draft,
    /// Committed to the ledger; immutable.
    Posted,
    /// Corrected by a reversal entry.
    Reversed,
}

pub open spec fn status_text(s: EntryStatus) -> Seq<char> {
    match s {
        EntryStatus::Draft => "draft"@,
        EntryStatus::Posted => "posted"@,
        EntryStatus::Reversed => "reversed"@,
    }
}

impl EntryStatus {
    pub fn as_str(self) -> (r: &'static str)
        ensures
            r@ == status_text(self),
    {
        match self {
            EntryStatus::Draft => "draft",
            EntryStatus::Posted => "posted",
            EntryStatus::Reversed => "reversed",
        }
    }

    /// The status a stored text stands for.
    pub fn parse(value: &str) -> (r: Result<EntryStatus, Error>)
        ensures
            match r {
                Ok(s) => value@ == status_text(s),
                Err(e) => (forall|s: EntryStatus| value@ != #[trigger] status_text(s)) && e@
                    == Refusal::Internal("unknown entry status "@ + quoted(value@)),
            },
    {
        if same(value, "draft") {
            Ok(EntryStatus::Draft)
        } else if same(value, "posted") {
            Ok(EntryStatus::Posted)
        } else if same(value, "reversed") {
            Ok(EntryStatus::Reversed)
        } else {
            let shown = quote(value);
            Err(Error::Internal(cat2("unknown entry status ", shown.as_str())))
        }
    }
}

/// No two statuses are written alike, so reading back what was written gives
/// the status that was written.
pub proof fn status_text_is_unambiguous(a: EntryStatus, b: EntryStatus)
    ensures
        status_text(a) == status_text(b) ==> a == b,
{
    reveal_strlit("draft");
    reveal_strlit("posted");
    reveal_strlit("reversed");
    assert("draft"@[0] == 'd');
    assert("posted"@[0] == 'p');
    assert("reversed"@[0] == 'r');
}

/// A debit or credit line as a caller supplies it.
#[derive(Debug)]
pub struct PostingInput {
    pub account_id: u128,
    pub debit: Decimal,
    pub credit: Decimal,
    pub memo: Option<String>,
}

/// A new entry as a caller supplies it.
#[derive(Debug)]
pub struct NewEntry {
    pub entry_date: Date,
    pub memo: String,
    pub reference: Option<String>,
    pub currency: String,
    pub lines: Vec<PostingInput>,
    pub created_by: Option<u128>,
}

/// An entry as it is stored. It gets its number when it is posted; moments are
/// in microseconds since the epoch.
#[derive(Debug)]
pub struct Entry {
    pub id: u128,
    pub number: Option<String>,
    pub entry_date: Date,
    pub memo: String,
    pub reference: Option<String>,
    pub currency: String,
    pub status: EntryStatus,
    pub reverses_id: Option<u128>,
    pub reversed_by_id: Option<u128>,
    pub posted_at: Option<i64>,
    pub created_at: i64,
    pub created_by: Option<u128>,
}

/// A line of an entry as it is stored.
#[derive(Debug)]
pub struct Posting {
    pub id: u128,
    pub account_id: u128,
    pub line_no: i32,
    pub debit: Decimal,
    pub credit: Decimal,
    pub memo: Option<String>,
}

/// What a new entry is stored under: its identifier, those of its lines, and the
/// moment of writing.
#[derive(Debug)]
pub struct Naming {
    pub id: u128,
    pub line_ids: Vec<u128>,
    pub at: i64,
}

/// An entry with its lines.
#[derive(Debug)]
pub struct Written {
    pub entry: Entry,
    pub postings: Vec<Posting>,
}

// ---------------------------------------------------------------------------
// What makes lines valid
// ---------------------------------------------------------------------------

pub open spec fn debits_of(lines: Seq<PostingInput>) -> Seq<Num> {
    lines.map_values(|l: PostingInput| l.debit@)
}

pub open spec fn credits_of(lines: Seq<PostingInput>) -> Seq<Num> {
    lines.map_values(|l: PostingInput| l.credit@)
}

/// Why a line is misshapen: it must be a debit or a credit, not both, not
/// negative, and in whole cents.
pub open spec fn shape_refusal(l: PostingInput) -> Option<Refusal> {
    if l.debit@.0 < 0 || l.credit@.0 < 0 {
        Some(Refusal::Validation("posting amounts must not be negative"@))
    } else if (l.debit@.0 > 0) == (l.credit@.0 > 0) {
        Some(Refusal::Validation("each posting must be exactly one of a debit or a credit"@))
    } else if normalized(l.debit@).1 > 2 || normalized(l.credit@).1 > 2 {
        Some(Refusal::Validation("posting amounts must not have more than two decimal places"@))
    } else {
        None
    }
}

/// Why a line cannot be booked where it says: the account must exist, be
/// active, have no sub-accounts, and share the entry's currency.
pub open spec fn account_refusal(
    accounts: Seq<Account>,
    currency: Seq<char>,
    l: PostingInput,
) -> Option<Refusal> {
    match first_where(accounts, has_id(l.account_id)) {
        None => Some(Refusal::NotFound("account "@ + id_text(l.account_id))),
        Some(a) => if !a.is_active {
            Some(
                Refusal::Validation(
                    "account "@ + a.code@ + " is inactive and cannot be posted to"@,
                ),
            )
        } else if any(accounts, has_parent(a.id)) {
            Some(
                Refusal::Validation(
                    "account "@ + a.code@
                        + " is a header with sub-accounts; post to one of its sub-accounts"@,
                ),
            )
        } else if a.currency@ != currency {
            Some(
                Refusal::Validation(
                    "account "@ + a.code@ + " is in "@ + a.currency@ + ", but the entry is in "@
                        + currency,
                ),
            )
        } else {
            None
        },
    }
}

/// The first misshapen line decides.
pub open spec fn first_shape_refusal(lines: Seq<PostingInput>, from: int) -> Option<Refusal>
    decreases lines.len() - from,
{
    if from < 0 || from >= lines.len() {
        None
    } else {
        match shape_refusal(lines[from]) {
            Some(r) => Some(r),
            None => first_shape_refusal(lines, from + 1),
        }
    }
}

/// The first line that cannot be booked decides.
pub open spec fn first_account_refusal(
    accounts: Seq<Account>,
    currency: Seq<char>,
    lines: Seq<PostingInput>,
    from: int,
) -> Option<Refusal>
    decreases lines.len() - from,
{
    if from < 0 || from >= lines.len() {
        None
    } else {
        match account_refusal(accounts, currency, lines[from]) {
            Some(r) => Some(r),
            None => first_account_refusal(accounts, currency, lines, from + 1),
        }
    }
}

/// Why a set of lines is refused, where it is.
pub open spec fn lines_refusal(
    accounts: Seq<Account>,
    currency: Seq<char>,
    lines: Seq<PostingInput>,
) -> Option<Refusal> {
    if lines.len() < 2 {
        Some(
            Refusal::Validation("an entry needs at least two postings (one debit, one credit)"@),
        )
    } else {
        match first_shape_refusal(lines, 0) {
            Some(r) => Some(r),
            None => first_account_refusal(accounts, currency, lines, 0),
        }
    }
}

/// Why totals do not make an entry, where they do not: they must be equal and
/// more than nothing.
pub open spec fn balance_refusal(debits: Option<Num>, credits: Option<Num>) -> Option<Refusal> {
    match (debits, credits) {
        (Some(d), Some(c)) => if worth(d) != worth(c) {
            Some(
                Refusal::Validation(
                    "entry does not balance: debits "@ + fixed_text(d, d.1) + " ≠ credits "@
                        + fixed_text(c, c.1),
                ),
            )
        } else if worth(d) == 0 {
            Some(Refusal::Validation("entry total must be greater than zero"@))
        } else {
            None
        },
        _ => Some(Refusal::Overflow),
    }
}

/// Why a date cannot be posted to, where it cannot.
pub open spec fn period_refusal(calendar: Seq<Period>, date: Date) -> Option<Refusal> {
    match first_cover(calendar, date@, 0) {
        Some(s) => if s == PeriodStatus::Open {
            None
        } else {
            Some(
                Refusal::Validation(
                    "the accounting period for "@ + iso_text(date@) + " is "@ + period_text(s)
                        + "; reopen it before posting"@,
                ),
            )
        },
        None => None,
    }
}

fn check_shape(line: &PostingInput) -> (r: Result<(), Error>)
    ensures
        refusal(r) == shape_refusal(*line),
{
    if line.debit.is_negative() || line.credit.is_negative() {
        return Err(Error::Validation("posting amounts must not be negative".to_owned()));
    }
    if line.debit.is_positive() == line.credit.is_positive() {
        return Err(
            Error::Validation("each posting must be exactly one of a debit or a credit".to_owned()),
        );
    }
    if line.debit.normalize().scale() > 2 || line.credit.normalize().scale() > 2 {
        return Err(
            Error::Validation(
                "posting amounts must not have more than two decimal places".to_owned(),
            ),
        );
    }
    Ok(())
}

fn check_account(accounts: &Vec<Account>, currency: &str, line: &PostingInput) -> (r: Result<
    (),
    Error,
>)
    ensures
        refusal(r) == account_refusal(accounts@, currency@, *line),
{
    match position_by_id(accounts, line.account_id) {
        None => {
            let shown = show_id(line.account_id);
            Err(Error::NotFound(cat2("account ", shown.as_str())))
        },
        Some(i) => {
            let acc = &accounts[i];
            if !acc.is_active {
                return Err(
                    Error::Validation(
                        cat3("account ", acc.code.as_str(), " is inactive and cannot be posted to"),
                    ),
                );
            }
            if has_children(accounts, acc.id) {
                return Err(
                    Error::Validation(
                        cat3(
                            "account ",
                            acc.code.as_str(),
                            " is a header with sub-accounts; post to one of its sub-accounts",
                        ),
                    ),
                );
            }
            if !same(acc.currency.as_str(), currency) {
                let head = cat4("account ", acc.code.as_str(), " is in ", acc.currency.as_str());
                return Err(
                    Error::Validation(cat3(head.as_str(), ", but the entry is in ", currency)),
                );
            }
            Ok(())
        },
    }
}

/// Check lines: at least two, each non-negative, single-sided and in whole
/// cents, and each on an existing, active account without sub-accounts in the
/// entry's currency.
pub fn validate_lines(accounts: &Vec<Account>, currency: &str, lines: &Vec<PostingInput>) -> (r:
    Result<(), Error>)
    ensures
        refusal(r) == lines_refusal(accounts@, currency@, lines@),
{
    if lines.len() < 2 {
        return Err(
            Error::Validation(
                "an entry needs at least two postings (one debit, one credit)".to_owned(),
            ),
        );
    }
    let mut i: usize = 0;
    while i < lines.len()
        invariant
            i <= lines.len(),
            lines.len() >= 2,
            first_shape_refusal(lines@, 0) == first_shape_refusal(lines@, i as int),
        decreases lines.len() - i,
    {
        check_shape(&lines[i])?;
        i = i + 1;
    }
    let mut k: usize = 0;
    while k < lines.len()
        invariant
            k <= lines.len(),
            lines.len() >= 2,
            first_shape_refusal(lines@, 0) is None,
            first_account_refusal(accounts@, currency@, lines@, 0) == first_account_refusal(
                accounts@,
                currency@,
                lines@,
                k as int,
            ),
        decreases lines.len() - k,
    {
        check_account(accounts, currency, &lines[k])?;
        k = k + 1;
    }
    Ok(())
}

/// One side of lines: the debits or the credits.
pub open spec fn side_of(lines: Seq<PostingInput>, debits: bool) -> Seq<Num> {
    if debits {
        debits_of(lines)
    } else {
        credits_of(lines)
    }
}

/// The total of one side.
fn sum_side(lines: &Vec<PostingInput>, debits: bool) -> (r: Option<Decimal>)
    ensures
        opt(r) == total(side_of(lines@, debits)),
{
    let ghost s = side_of(lines@, debits);
    let mut acc = Decimal::zero();
    let mut i: usize = 0;
    while i < lines.len()
        invariant
            i <= lines.len(),
            s == side_of(lines@, debits),
            total_to(s, i as nat) == Some(acc@),
        decreases lines.len() - i,
    {
        let amount = if debits {
            lines[i].debit
        } else {
            lines[i].credit
        };
        match acc.checked_add(amount) {
            Some(next) => {
                acc = next;
            },
            None => {
                proof {
                    lemma_total_none(s, (i + 1) as nat, s.len());
                }
                return None;
            },
        }
        i = i + 1;
    }
    Some(acc)
}

fn check_totals(debits: Option<Decimal>, credits: Option<Decimal>) -> (r: Result<(), Error>)
    ensures
        refusal(r) == balance_refusal(opt(debits), opt(credits)),
{
    match (debits, credits) {
        (Some(d), Some(c)) => {
            if !d.equals(&c) {
                let left = d.text();
                let right = c.text();
                return Err(
                    Error::Validation(
                        cat4(
                            "entry does not balance: debits ",
                            left.as_str(),
                            " ≠ credits ",
                            right.as_str(),
                        ),
                    ),
                );
            }
            proof {
                lemma_worth_sign(d@);
            }
            if d.is_zero() {
                return Err(Error::Validation("entry total must be greater than zero".to_owned()));
            }
            Ok(())
        },
        _ => Err(Error::Overflow),
    }
}

/// The golden rule: at least two lines, total debits equal to total credits,
/// and a total that is not zero.
pub fn check_balanced(lines: &Vec<PostingInput>) -> (r: Result<(), Error>)
    ensures
        refusal(r) == if lines@.len() < 2 {
            Some(Refusal::Validation("an entry needs at least two postings to post"@))
        } else {
            balance_refusal(total(debits_of(lines@)), total(credits_of(lines@)))
        },
{
    if lines.len() < 2 {
        return Err(Error::Validation("an entry needs at least two postings to post".to_owned()));
    }
    check_totals(sum_side(lines, true), sum_side(lines, false))
}

// ---------------------------------------------------------------------------
// Writing entries
// ---------------------------------------------------------------------------

/// The line with that place, as it is stored: numbered from one, a blank memo
/// dropped.
pub open spec fn is_posting(p: Posting, l: PostingInput, id: u128, place: int) -> bool {
    &&& p.id == id
    &&& p.account_id == l.account_id
    &&& p.line_no == place + 1
    &&& p.debit == l.debit
    &&& p.credit == l.credit
    &&& opt_text(p.memo) == unless_blank(opt_text(l.memo))
}

pub open spec fn are_postings(ps: Seq<Posting>, ls: Seq<PostingInput>, ids: Seq<u128>) -> bool {
    ps.len() == ls.len() && forall|i: int|
        0 <= i < ls.len() ==> is_posting(#[trigger] ps[i], ls[i], ids[i], i)
}

/// The stored form of lines, numbered from one.
pub fn insert_postings(lines: &Vec<PostingInput>, ids: &Vec<u128>) -> (r: Vec<Posting>)
    requires
        lines@.len() <= i32::MAX,
        lines@.len() <= ids@.len(),
    ensures
        are_postings(r@, lines@, ids@),
{
    let mut out: Vec<Posting> = Vec::new();
    let mut i: usize = 0;
    while i < lines.len()
        invariant
            i <= lines.len(),
            lines@.len() <= i32::MAX,
            lines@.len() <= ids@.len(),
            out@.len() == i,
            forall|j: int| 0 <= j < i ==> is_posting(#[trigger] out@[j], lines@[j], ids@[j], j),
        decreases lines.len() - i,
    {
        let line = &lines[i];
        let memo = keep_text(line.memo.clone());
        out.push(
            Posting {
                id: ids[i],
                account_id: line.account_id,
                line_no: (i + 1) as i32,
                debit: line.debit,
                credit: line.credit,
                memo,
            },
        );
        i = i + 1;
    }
    out
}

/// The ledger that entries are decided against: the chart and the calendar, as
/// they were loaded.
#[derive(Debug)]
pub struct Ledger {
    pub accounts: Vec<Account>,
    pub calendar: Vec<Period>,
}

/// The head of an entry that has just been composed: what the caller supplied,
/// and where it is posted its number and the moment.
pub open spec fn is_head(
    e: Entry,
    new: NewEntry,
    naming: Naming,
    posted: Option<Seq<char>>,
) -> bool {
    &&& e.id == naming.id
    &&& opt_text(e.number) == posted
    &&& e.entry_date == new.entry_date
    &&& e.memo@ == trimmed(new.memo@)
    &&& opt_text(e.reference) == unless_blank(opt_text(new.reference))
    &&& e.currency == new.currency
    &&& e.status == if posted is Some {
        EntryStatus::Posted
    } else {
        EntryStatus::Draft
    }
    &&& e.reverses_id is None
    &&& e.reversed_by_id is None
    &&& e.posted_at == if posted is Some {
        Some(naming.at)
    } else {
        None
    }
    &&& e.created_at == naming.at
    &&& e.created_by == new.created_by
}

/// Why a draft is refused, where it is. `currency` is what the check of the
/// currency code answered.
pub open spec fn draft_refusal(
    ledger: Ledger,
    new: NewEntry,
    currency: Option<Refusal>,
) -> Option<Refusal> {
    if is_blank(new.memo@) {
        Some(Refusal::Validation("an entry needs a memo"@))
    } else {
        either(currency, lines_refusal(ledger.accounts@, new.currency@, new.lines@))
    }
}

/// Why an entry that is born posted is refused, where it is.
pub open spec fn posted_refusal(
    ledger: Ledger,
    new: NewEntry,
    currency: Option<Refusal>,
) -> Option<Refusal> {
    either(
        draft_refusal(ledger, new, currency),
        either(
            balance_refusal(total(debits_of(new.lines@)), total(credits_of(new.lines@))),
            period_refusal(ledger.calendar@, new.entry_date),
        ),
    )
}

/// A stored line as it was supplied, but for its memo.
pub open spec fn inputs(lines: Seq<Posting>) -> Seq<PostingInput> {
    lines.map_values(
        |p: Posting|
            PostingInput {
                account_id: p.account_id,
                debit: p.debit,
                credit: p.credit,
                memo: None,
            },
    )
}

fn inputs_of(lines: &Vec<Posting>) -> (r: Vec<PostingInput>)
    ensures
        r@ == inputs(lines@),
{
    let mut out: Vec<PostingInput> = Vec::new();
    let mut i: usize = 0;
    while i < lines.len()
        invariant
            i <= lines.len(),
            out@ == inputs(lines@).take(i as int),
        decreases lines.len() - i,
    {
        let p = &lines[i];
        out.push(
            PostingInput {
                account_id: p.account_id,
                debit: p.debit,
                credit: p.credit,
                memo: None,
            },
        );
        assert(out@ =~= inputs(lines@).take(i + 1));
        i = i + 1;
    }
    assert(out@ =~= inputs(lines@));
    out
}

/// The draft once it is posted: with its number and the moment, and all else
/// kept.
pub open spec fn is_posted_draft(w: Written, draft: Written, number: Seq<char>, at: i64) -> bool {
    &&& w.entry.number matches Some(n) && n@ == number
    &&& w.entry == (Entry {
        number: w.entry.number,
        status: EntryStatus::Posted,
        posted_at: Some(at),
        ..draft.entry
    })
    &&& w.postings == draft.postings
}

/// An entry once it is reversed: with the link to its reversal, and all else
/// kept.
pub open spec fn once_reversed(original: Entry, by: u128) -> Entry {
    Entry { status: EntryStatus::Reversed, reversed_by_id: Some(by), ..original }
}

/// Why posting a draft is refused, where it is.
pub open spec fn post_refusal(ledger: Ledger, entry: Entry, lines: Seq<PostingInput>) -> Option<
    Refusal,
> {
    if entry.status != EntryStatus::Draft {
        Some(Refusal::Validation("only a draft entry can be posted"@))
    } else {
        either(
            period_refusal(ledger.calendar@, entry.entry_date),
            either(
                if lines.len() < 2 {
                    Some(Refusal::Validation("an entry needs at least two postings to post"@))
                } else {
                    balance_refusal(total(debits_of(lines)), total(credits_of(lines)))
                },
                lines_refusal(ledger.accounts@, entry.currency@, lines),
            ),
        )
    }
}

/// The memo of a reversal.
pub open spec fn reversal_memo(number: Option<Seq<char>>, reason: Seq<char>) -> Seq<char> {
    let what = match number {
        Some(n) => n,
        None => "entry"@,
    };
    if is_blank(reason) {
        "Reversal of "@ + what
    } else {
        "Reversal of "@ + what + ": "@ + trimmed(reason)
    }
}

/// Why reversing an entry is refused, where it is.
pub open spec fn reverse_refusal(ledger: Ledger, original: Entry, date: Date) -> Option<Refusal> {
    match original.status {
        EntryStatus::Draft => Some(
            Refusal::Validation("a draft entry has not been posted and cannot be reversed"@),
        ),
        EntryStatus::Reversed => Some(Refusal::Validation("entry is already reversed"@)),
        EntryStatus::Posted => if earlier(date@, original.entry_date@) {
            Some(
                Refusal::Validation("a reversal cannot be dated before the entry it reverses"@),
            )
        } else {
            period_refusal(ledger.calendar@, date)
        },
    }
}

/// The line with its sides swapped.
pub open spec fn is_swapped(m: Posting, l: Posting, id: u128, place: int) -> bool {
    &&& m.id == id
    &&& m.account_id == l.account_id
    &&& m.line_no == place + 1
    &&& m.debit == l.credit
    &&& m.credit == l.debit
    &&& opt_text(m.memo) == unless_blank(opt_text(l.memo))
}

/// The mirror image of lines: every line with its sides swapped, in the same
/// order.
pub open spec fn is_mirror(ms: Seq<Posting>, ls: Seq<Posting>, ids: Seq<u128>) -> bool {
    ms.len() == ls.len() && forall|i: int|
        0 <= i < ls.len() ==> is_swapped(#[trigger] ms[i], ls[i], ids[i], i)
}

/// Whether an entry is the reversal of another one.
pub open spec fn is_reversal(
    w: Written,
    original: Entry,
    lines: Seq<Posting>,
    reason: Seq<char>,
    date: Date,
    naming: Naming,
    number: Seq<char>,
) -> bool {
    &&& w.entry.id == naming.id
    &&& opt_text(w.entry.number) == Some(number)
    &&& w.entry.entry_date == date
    &&& w.entry.memo@ == reversal_memo(opt_text(original.number), reason)
    &&& opt_text(w.entry.reference) == opt_text(original.number)
    &&& w.entry.currency@ == original.currency@
    &&& w.entry.status == EntryStatus::Posted
    &&& w.entry.reverses_id == Some(original.id)
    &&& w.entry.reversed_by_id is None
    &&& w.entry.posted_at == Some(naming.at)
    &&& w.entry.created_at == naming.at
    &&& is_mirror(w.postings@, lines, naming.line_ids@)
}

impl Ledger {
    fn check_open(&self, date: Date) -> (r: Result<(), Error>)
        ensures
            refusal(r) == period_refusal(self.calendar@, date),
    {
        ensure_open_for_post(&self.calendar, date)
    }

    fn check_draft(&self, new: &NewEntry, currency: Option<Error>) -> (r: Result<(), Error>)
        ensures
            refusal(r) == draft_refusal(*self, *new, refused(currency)),
    {
        if blank(new.memo.as_str()) {
            return Err(Error::Validation("an entry needs a memo".to_owned()));
        }
        if let Some(e) = currency {
            return Err(e);
        }
        validate_lines(&self.accounts, new.currency.as_str(), &new.lines)
    }

    /// Compose a draft. The lines must be well formed; whether they balance is
    /// asked when the draft is posted. `currency` is why the currency code was
    /// refused, where it was.
    pub fn create_draft(&self, new: NewEntry, naming: &Naming, currency: Option<Error>) -> (r: Result<
        Written,
        Error,
    >)
        requires
            new.lines@.len() <= i32::MAX,
            new.lines@.len() <= naming.line_ids@.len(),
        ensures
            refusal(r) == draft_refusal(*self, new, refused(currency)),
            r matches Ok(w) ==> is_head(w.entry, new, *naming, None) && are_postings(
                w.postings@,
                new.lines@,
                naming.line_ids@,
            ),
    {
        self.check_draft(&new, currency)?;
        Ok(written(new, naming, None))
    }

    /// Replace a draft's head and lines as a whole. Only a draft may change.
    pub fn update_draft(
        &self,
        existing: Entry,
        new: NewEntry,
        line_ids: &Vec<u128>,
        currency: Option<Error>,
    ) -> (r: Result<Written, Error>)
        requires
            new.lines@.len() <= i32::MAX,
            new.lines@.len() <= line_ids@.len(),
        ensures
            refusal(r) == if is_blank(new.memo@) {
                Some(Refusal::Validation("an entry needs a memo"@))
            } else if currency is Some {
                refused(currency)
            } else if existing.status != EntryStatus::Draft {
                Some(Refusal::Validation("only a draft entry can be edited"@))
            } else {
                lines_refusal(self.accounts@, new.currency@, new.lines@)
            },
            r matches Ok(w) ==> {
                &&& w.entry.id == existing.id
                &&& w.entry.number == existing.number
                &&& w.entry.entry_date == new.entry_date
                &&& w.entry.memo@ == trimmed(new.memo@)
                &&& opt_text(w.entry.reference) == unless_blank(opt_text(new.reference))
                &&& w.entry.currency == new.currency
                &&& w.entry.status == EntryStatus::Draft
                &&& w.entry.reverses_id == existing.reverses_id
                &&& w.entry.reversed_by_id == existing.reversed_by_id
                &&& w.entry.posted_at == existing.posted_at
                &&& w.entry.created_at == existing.created_at
                &&& w.entry.created_by == existing.created_by
                &&& are_postings(w.postings@, new.lines@, line_ids@)
            },
    {
        if blank(new.memo.as_str()) {
            return Err(Error::Validation("an entry needs a memo".to_owned()));
        }
        if let Some(e) = currency {
            return Err(e);
        }
        if existing.status != EntryStatus::Draft {
            return Err(Error::Validation("only a draft entry can be edited".to_owned()));
        }
        validate_lines(&self.accounts, new.currency.as_str(), &new.lines)?;
        let postings = insert_postings(&new.lines, line_ids);
        let mut entry = existing;
        entry.entry_date = new.entry_date;
        entry.memo = trim(new.memo.as_str());
        entry.reference = keep_text(new.reference);
        entry.currency = new.currency;
        Ok(Written { entry, postings })
    }

    /// Post a draft under a number: it must lie in an open period, balance, and
    /// hold lines that are still valid, since the chart may have changed.
    pub fn post(&self, draft: Written, number: String, at: i64) -> (r: Result<Written, Error>)
        ensures
            refusal(r) == post_refusal(*self, draft.entry, inputs(draft.postings@)),
            r matches Ok(w) ==> is_posted_draft(w, draft, number@, at),
    {
        if draft.entry.status != EntryStatus::Draft {
            return Err(Error::Validation("only a draft entry can be posted".to_owned()));
        }
        self.check_open(draft.entry.entry_date)?;
        let lines = inputs_of(&draft.postings);
        check_balanced(&lines)?;
        validate_lines(&self.accounts, draft.entry.currency.as_str(), &lines)?;
        let mut w = draft;
        w.entry.number = Some(number);
        w.entry.status = EntryStatus::Posted;
        w.entry.posted_at = Some(at);
        Ok(w)
    }

    /// Compose an entry that is born posted under a number: the lines must
    /// balance up front.
    pub fn create_posted_in(
        &self,
        new: NewEntry,
        naming: &Naming,
        number: String,
        currency: Option<Error>,
    ) -> (r: Result<Written, Error>)
        requires
            new.lines@.len() <= i32::MAX,
            new.lines@.len() <= naming.line_ids@.len(),
        ensures
            refusal(r) == posted_refusal(*self, new, refused(currency)),
            r matches Ok(w) ==> is_head(w.entry, new, *naming, Some(number@)) && are_postings(
                w.postings@,
                new.lines@,
                naming.line_ids@,
            ),
    {
        self.check_draft(&new, currency)?;
        check_totals(sum_side(&new.lines, true), sum_side(&new.lines, false))?;
        self.check_open(new.entry_date)?;
        Ok(written(new, naming, Some(number)))
    }

    /// Reverse a posted entry: the mirror entry, posted at once under a number,
    /// and the original, which moves to `Reversed`, each linked to the other.
    /// The reversal is dated `entry_date`, or `today`: never before the
    /// original, and always in an open period.
    pub fn reverse(
        &self,
        original: Entry,
        lines: &Vec<Posting>,
        reason: &str,
        entry_date: Option<Date>,
        today: Date,
        naming: &Naming,
        number: String,
        created_by: Option<u128>,
    ) -> (r: Result<(Written, Entry), Error>)
        requires
            lines@.len() <= i32::MAX,
            lines@.len() <= naming.line_ids@.len(),
        ensures
            ({
                let date = match entry_date {
                    Some(d) => d,
                    None => today,
                };
                &&& refusal(r) == reverse_refusal(*self, original, date)
                &&& r matches Ok((w, after)) ==> {
                    &&& is_reversal(w, original, lines@, reason@, date, *naming, number@)
                    &&& w.entry.created_by == created_by
                    &&& after == once_reversed(original, naming.id)
                }
            }),
    {
        match original.status {
            EntryStatus::Posted => {},
            EntryStatus::Draft => {
                return Err(
                    Error::Validation(
                        "a draft entry has not been posted and cannot be reversed".to_owned(),
                    ),
                );
            },
            EntryStatus::Reversed => {
                return Err(Error::Validation("entry is already reversed".to_owned()));
            },
        }
        let date = match entry_date {
            Some(d) => d,
            None => today,
        };
        if date.is_before(&original.entry_date) {
            return Err(
                Error::Validation(
                    "a reversal cannot be dated before the entry it reverses".to_owned(),
                ),
            );
        }
        self.check_open(date)?;
        let what = match &original.number {
            Some(n) => n.as_str(),
            None => "entry",
        };
        let why = trim(reason);
        let memo = if why.as_str().unicode_len() == 0 {
            cat2("Reversal of ", what)
        } else {
            cat4("Reversal of ", what, ": ", why.as_str())
        };
        let mut postings: Vec<Posting> = Vec::new();
        let mut i: usize = 0;
        while i < lines.len()
            invariant
                i <= lines.len(),
                lines@.len() <= i32::MAX,
                lines@.len() <= naming.line_ids@.len(),
                postings@.len() == i,
                forall|j: int|
                    0 <= j < i ==> is_swapped(
                        #[trigger] postings@[j],
                        lines@[j],
                        naming.line_ids@[j],
                        j,
                    ),
            decreases lines.len() - i,
        {
            let line = &lines[i];
            postings.push(
                Posting {
                    id: naming.line_ids[i],
                    account_id: line.account_id,
                    line_no: (i + 1) as i32,
                    debit: line.credit,
                    credit: line.debit,
                    memo: keep_text(line.memo.clone()),
                },
            );
            i = i + 1;
        }
        let reference = match &original.number {
            Some(n) => Some(n.clone()),
            None => None,
        };
        let entry = Entry {
            id: naming.id,
            number: Some(number),
            entry_date: date,
            memo,
            reference,
            currency: original.currency.clone(),
            status: EntryStatus::Posted,
            reverses_id: Some(original.id),
            reversed_by_id: None,
            posted_at: Some(naming.at),
            created_at: naming.at,
            created_by,
        };
        let mut after = original;
        after.status = EntryStatus::Reversed;
        after.reversed_by_id = Some(naming.id);
        Ok((Written { entry, postings }, after))
    }
}

fn written(new: NewEntry, naming: &Naming, number: Option<String>) -> (w: Written)
    requires
        new.lines@.len() <= i32::MAX,
        new.lines@.len() <= naming.line_ids@.len(),
    ensures
        is_head(w.entry, new, *naming, opt_text(number)),
        are_postings(w.postings@, new.lines@, naming.line_ids@),
{
    let postings = insert_postings(&new.lines, &naming.line_ids);
    let memo = trim(new.memo.as_str());
    let (status, posted_at) = if number.is_some() {
        (EntryStatus::Posted, Some(naming.at))
    } else {
        (EntryStatus::Draft, None)
    };
    let entry = Entry {
        id: naming.id,
        number,
        entry_date: new.entry_date,
        memo,
        reference: keep_text(new.reference),
        currency: new.currency,
        status,
        reverses_id: None,
        reversed_by_id: None,
        posted_at,
        created_at: naming.at,
        created_by: new.created_by,
    };
    Written { entry, postings }
}

/// Decide on deleting a draft. A posted or reversed entry is part of the
/// ledger's history.
pub fn delete_draft(status: EntryStatus) -> (r: Result<(), Error>)
    ensures
        refusal(r) == if status == EntryStatus::Draft {
            None
        } else {
            Some(Refusal::Validation("only a draft entry can be deleted"@))
        },
{
    if status != EntryStatus::Draft {
        return Err(Error::Validation("only a draft entry can be deleted".to_owned()));
    }
    Ok(())
}

// ---------------------------------------------------------------------------
// Laws
// ---------------------------------------------------------------------------

/// What the first `n` lines add to an account: debits less credits.
pub open spec fn effect_to(lines: Seq<Posting>, account: u128, n: nat) -> int
    decreases n,
{
    if n == 0 {
        0
    } else {
        let l = lines[n - 1];
        effect_to(lines, account, (n - 1) as nat) + if l.account_id == account {
            worth(l.debit@) - worth(l.credit@)
        } else {
            0
        }
    }
}

/// What lines add to an account: debits less credits.
pub open spec fn effect(lines: Seq<Posting>, account: u128) -> int {
    effect_to(lines, account, lines.len())
}

/// An entry and its reversal cancel out in every account.
pub proof fn reversal_cancels(
    mirror: Seq<Posting>,
    lines: Seq<Posting>,
    ids: Seq<u128>,
    account: u128,
)
    requires
        is_mirror(mirror, lines, ids),
    ensures
        effect(mirror, account) + effect(lines, account) == 0,
{
    lemma_mirror_effect(mirror, lines, ids, account, lines.len());
}

proof fn lemma_mirror_effect(
    mirror: Seq<Posting>,
    lines: Seq<Posting>,
    ids: Seq<u128>,
    account: u128,
    n: nat,
)
    requires
        is_mirror(mirror, lines, ids),
        n <= lines.len(),
    ensures
        effect_to(mirror, account, n) == -effect_to(lines, account, n),
    decreases n,
{
    if n > 0 {
        lemma_mirror_effect(mirror, lines, ids, account, (n - 1) as nat);
        assert(is_swapped(mirror[n - 1], lines[n - 1], ids[n - 1], n - 1));
    }
}

/// Reversing a reversal gives back the amounts of the entry, line by line.
pub proof fn mirror_of_mirror(
    twice: Seq<Posting>,
    once: Seq<Posting>,
    lines: Seq<Posting>,
    ids: Seq<u128>,
    more_ids: Seq<u128>,
)
    requires
        is_mirror(once, lines, ids),
        is_mirror(twice, once, more_ids),
    ensures
        twice.len() == lines.len(),
        forall|i: int|
            0 <= i < lines.len() ==> (#[trigger] twice[i]).account_id == lines[i].account_id
                && twice[i].debit == lines[i].debit && twice[i].credit == lines[i].credit,
{
    assert forall|i: int| 0 <= i < lines.len() implies (#[trigger] twice[i]).account_id
        == lines[i].account_id && twice[i].debit == lines[i].debit && twice[i].credit
        == lines[i].credit by {
        assert(is_swapped(twice[i], once[i], more_ids[i], i));
        assert(is_swapped(once[i], lines[i], ids[i], i));
    }
}

/// An entry that is accepted for posting balances to the cent: what its
/// debits are worth is exactly what its credits are worth.
pub proof fn posted_entries_balance(ledger: Ledger, new: NewEntry, currency: Option<Refusal>)
    requires
        posted_refusal(ledger, new, currency) is None,
        adds_exactly(debits_of(new.lines@)),
        adds_exactly(credits_of(new.lines@)),
    ensures
        worth_of(debits_of(new.lines@)) == worth_of(credits_of(new.lines@)),
        worth_of(debits_of(new.lines@)) != 0,
{
    lemma_sum_exact(debits_of(new.lines@), new.lines@.len());
    lemma_sum_exact(credits_of(new.lines@), new.lines@.len());
}

/// The same holds of a draft at the moment it is posted, which leaves its lines
/// as they are.
pub proof fn posted_drafts_balance(
    ledger: Ledger,
    draft: Written,
    w: Written,
    number: Seq<char>,
    at: i64,
)
    requires
        post_refusal(ledger, draft.entry, inputs(draft.postings@)) is None,
        is_posted_draft(w, draft, number, at),
        adds_exactly(debits_of(inputs(draft.postings@))),
        adds_exactly(credits_of(inputs(draft.postings@))),
    ensures
        w.entry.number is Some,
        w.entry.posted_at == Some(at),
        w.postings@ == draft.postings@,
        worth_of(debits_of(inputs(w.postings@))) == worth_of(credits_of(inputs(w.postings@))),
        worth_of(debits_of(inputs(w.postings@))) > 0,
{
    let debits = debits_of(inputs(w.postings@));
    lemma_sum_exact(debits, debits.len());
    lemma_sum_exact(credits_of(inputs(w.postings@)), w.postings@.len());
    lemma_shapes(inputs(w.postings@), 0, w.postings@.len());
    lemma_worth_at_least(debits, debits.len());
}

proof fn lemma_shapes(lines: Seq<PostingInput>, from: int, n: nat)
    requires
        0 <= from <= n == lines.len(),
        first_shape_refusal(lines, from) is None,
    ensures
        forall|i: int| from <= i < n ==> (#[trigger] lines[i]).debit@.0 >= 0 && lines[i].credit@.0 >= 0,
    decreases n - from,
{
    if from < n {
        lemma_shapes(lines, from + 1, n);
    }
}

proof fn lemma_worth_at_least(s: Seq<Num>, n: nat)
    requires
        n <= s.len(),
        forall|i: int| 0 <= i < s.len() ==> (#[trigger] s[i]).0 >= 0,
    ensures
        worth_to(s, n) >= 0,
    decreases n,
{
    if n > 0 {
        lemma_worth_at_least(s, (n - 1) as nat);
        lemma_worth_sign(s[n - 1]);
    }
}

/// An entry that was reversed and its reversal point at each other, and cancel
/// out in every account.
pub proof fn reversals_are_linked(
    w: Written,
    original: Entry,
    lines: Seq<Posting>,
    reason: Seq<char>,
    date: Date,
    naming: Naming,
    number: Seq<char>,
    account: u128,
)
    requires
        is_reversal(w, original, lines, reason, date, naming, number),
    ensures
        once_reversed(original, naming.id).status == EntryStatus::Reversed,
        once_reversed(original, naming.id).reversed_by_id == Some(w.entry.id),
        w.entry.reverses_id == Some(once_reversed(original, naming.id).id),
        effect(w.postings@, account) + effect(lines, account) == 0,
{
    reversal_cancels(w.postings@, lines, naming.line_ids@, account);
}

/// Only a posted entry can be reversed, and reversing moves it on: it cannot
/// be reversed a second time.
pub proof fn reversed_once(ledger: Ledger, original: Entry, by: u128, date: Date, again: Date)
    requires
        reverse_refusal(ledger, original, date) is None,
    ensures
        original.status == EntryStatus::Posted,
        reverse_refusal(ledger, once_reversed(original, by), again) is Some,
{
}

/// What is posted never goes back to being editable: a posted or reversed
/// entry is refused for posting.
pub proof fn posted_is_final(ledger: Ledger, entry: Entry, lines: Seq<PostingInput>)
    requires
        entry.status != EntryStatus::Draft,
    ensures
        post_refusal(ledger, entry, lines) is Some,
{
}

proof fn lemma_no_shape_refused(lines: Seq<PostingInput>, from: int, i: int)
    requires
        0 <= from <= i < lines.len(),
        first_shape_refusal(lines, from) is None,
    ensures
        shape_refusal(lines[i]) is None,
    decreases i - from,
{
    if from < i {
        lemma_no_shape_refused(lines, from + 1, i);
    }
}

proof fn lemma_no_account_refused(
    accounts: Seq<Account>,
    currency: Seq<char>,
    lines: Seq<PostingInput>,
    from: int,
    i: int,
)
    requires
        0 <= from <= i < lines.len(),
        first_account_refusal(accounts, currency, lines, from) is None,
    ensures
        account_refusal(accounts, currency, lines[i]) is None,
    decreases i - from,
{
    if from < i {
        lemma_no_account_refused(accounts, currency, lines, from + 1, i);
    }
}

/// Every line of an accepted entry is one that can be booked: there are two lines or more;
/// each is a debit or a credit, not both, of a positive amount in cents; and it is
/// posted to an active account in the entry's currency that no other account stands
/// under. Accounts are known by their ids.
pub proof fn accepted_lines_can_be_booked(
    accounts: Seq<Account>,
    currency: Seq<char>,
    lines: Seq<PostingInput>,
    i: int,
)
    requires
        lines_refusal(accounts, currency, lines) is None,
        0 <= i < lines.len(),
        lines[i].debit@.1 <= max_places(),
        lines[i].credit@.1 <= max_places(),
    ensures
        lines.len() >= 2,
        lines[i].debit@.0 >= 0 && lines[i].credit@.0 >= 0,
        lines[i].debit@.0 > 0 <==> lines[i].credit@.0 == 0,
        worth(lines[i].debit@) % pow10(26) == 0,
        worth(lines[i].credit@) % pow10(26) == 0,
        exists|k: int|
            0 <= k < accounts.len() && (#[trigger] accounts[k]).id == lines[i].account_id
                && accounts[k].is_active && accounts[k].currency@ == currency,
        forall|j: int|
            0 <= j < accounts.len() ==> (#[trigger] accounts[j]).parent_id != Some(
                lines[i].account_id,
            ),
{
    let l = lines[i];
    lemma_no_shape_refused(lines, 0, i);
    lemma_no_account_refused(accounts, currency, lines, 0, i);
    lemma_few_places(l.debit@);
    lemma_few_places(l.credit@);
    lemma_first_from(accounts, has_id(l.account_id), 0);
    let k = first_from(accounts, has_id(l.account_id), 0)->0;
    assert(accounts[k].id == l.account_id);
    assert forall|j: int| 0 <= j < accounts.len() implies (#[trigger] accounts[j]).parent_id
        != Some(l.account_id) by {
        assert(!has_parent(l.account_id)(accounts[j]));
    }
}

/// A number of at most two places, once the zeros at its end are gone, is in whole cents.
proof fn lemma_few_places(n: Num)
    requires
        n.1 <= max_places(),
        normalized(n).1 <= 2,
    ensures
        worth(n) % pow10(26) == 0,
{
    lemma_normalized_worth(n);
    let m = normalized(n);
    let g = pow10((2 - m.1) as nat);
    let u = pow10(26);
    lemma_pow10_adds((2 - m.1) as nat, 26);
    lemma_pow10_positive(26);
    let k = m.0 * g;
    assert(m.0 * (g * u) == k * u) by (nonlinear_arith)
        requires
            k == m.0 * g,
    ;
    vstd::arithmetic::div_mod::lemma_mod_multiples_basic(k, u);
}

/// A reversal that is accepted is of a posted entry, and is dated on its day or later.
pub proof fn reversals_are_dated_no_earlier(ledger: Ledger, original: Entry, date: Date)
    requires
        is_date(original.entry_date@),
        is_date(date@),
        reverse_refusal(ledger, original, date) is None,
    ensures
        original.status == EntryStatus::Posted,
        day_number(original.entry_date@) <= day_number(date@),
{
    lemma_day_number_orders(original.entry_date@, date@);
}

} // verus!
