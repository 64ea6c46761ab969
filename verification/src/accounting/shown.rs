//! Journal entries as they are shown: with their lines, the labels of the
//! accounts, and what the lines come to.

use super::account::{has_id, position_by_id, Model as Account};
use super::expense::ExpenseService;
use super::journal::{EntryStatus, Ledger, Posting, Written};
use crate::date::{earlier, Date};
use crate::decimal::{Decimal, Num};
use crate::error::{in_range, refusal, Error, Refusal};
use crate::search::{first_where, kept, kept_to, lemma_kept_at};
use crate::sort::{arrange, arranged, backwards, Ordered};
use crate::sums::{lemma_total_none, total, total_to};
use crate::text::{begins_with, copy_text, opt_text, starts};
use vstd::prelude::*;

verus! {

/// A line with the labels of its account.
#[derive(Debug)]
pub struct PostingView {
    pub id: u128,
    pub account_id: u128,
    pub account_code: String,
    pub account_name: String,
    pub line_no: i32,
    pub debit: Decimal,
    pub credit: Decimal,
    pub memo: Option<String>,
}

/// An entry with its lines.
#[derive(Debug)]
pub struct JournalEntryView {
    pub id: u128,
    pub number: Option<String>,
    pub entry_date: Date,
    pub memo: String,
    pub reference: Option<String>,
    pub currency: String,
    pub status: EntryStatus,
    pub reverses_id: Option<u128>,
    pub reversed_by_id: Option<u128>,
    pub posted_at: Option<i64>,
    pub created_at: i64,
    pub lines: Vec<PostingView>,
    pub total_debit: Decimal,
    pub total_credit: Decimal,
}

/// An entry in the register: what it is, and its amount.
#[derive(Debug)]
pub struct JournalEntryHeader {
    pub id: u128,
    pub number: Option<String>,
    pub entry_date: Date,
    pub memo: String,
    pub reference: Option<String>,
    pub currency: String,
    pub status: EntryStatus,
    /// What it debits.
    pub amount: Decimal,
}

pub open spec fn debit_column(lines: Seq<Posting>) -> Seq<Num> {
    lines.map_values(|l: Posting| l.debit@)
}

pub open spec fn credit_column(lines: Seq<Posting>) -> Seq<Num> {
    lines.map_values(|l: Posting| l.credit@)
}

/// Whether a line is shown with the labels of its account, where that is
/// known.
pub open spec fn shows_line(v: PostingView, l: Posting, accounts: Seq<Account>) -> bool {
    let account = first_where(accounts, has_id(l.account_id));
    &&& v.id == l.id
    &&& v.account_id == l.account_id
    &&& v.account_code@ == (match account {
        Some(a) => a.code@,
        None => ""@,
    })
    &&& v.account_name@ == (match account {
        Some(a) => a.name@,
        None => ""@,
    })
    &&& v.line_no == l.line_no
    &&& v.debit == l.debit
    &&& v.credit == l.credit
    &&& opt_text(v.memo) == opt_text(l.memo)
}

/// Whether a view shows an entry.
pub open spec fn shows_entry(v: JournalEntryView, w: Written, accounts: Seq<Account>) -> bool {
    &&& v.id == w.entry.id
    &&& opt_text(v.number) == opt_text(w.entry.number)
    &&& v.entry_date == w.entry.entry_date
    &&& v.memo@ == w.entry.memo@
    &&& opt_text(v.reference) == opt_text(w.entry.reference)
    &&& v.currency@ == w.entry.currency@
    &&& v.status == w.entry.status
    &&& v.reverses_id == w.entry.reverses_id
    &&& v.reversed_by_id == w.entry.reversed_by_id
    &&& v.posted_at == w.entry.posted_at
    &&& v.created_at == w.entry.created_at
    &&& v.lines@.len() == w.postings@.len()
    &&& forall|i: int|
        0 <= i < w.postings@.len() ==> shows_line(#[trigger] v.lines@[i], w.postings@[i], accounts)
    &&& total(debit_column(w.postings@)) == Some(v.total_debit@)
    &&& total(credit_column(w.postings@)) == Some(v.total_credit@)
}

fn label(accounts: &Vec<Account>, l: &Posting) -> (r: PostingView)
    ensures
        shows_line(r, *l, accounts@),
{
    let (account_code, account_name) = match position_by_id(accounts, l.account_id) {
        Some(i) => (accounts[i].code.clone(), accounts[i].name.clone()),
        None => ("".to_owned(), "".to_owned()),
    };
    PostingView {
        id: l.id,
        account_id: l.account_id,
        account_code,
        account_name,
        line_no: l.line_no,
        debit: l.debit,
        credit: l.credit,
        memo: copy_text(&l.memo),
    }
}

impl Ledger {
    /// Show an entry with its lines and the labels of their accounts.
    pub fn view(&self, w: &Written) -> (r: Result<JournalEntryView, Error>)
        ensures
            match r {
                Ok(v) => shows_entry(v, *w, self.accounts@),
                Err(e) => e@ == Refusal::Overflow && (total(debit_column(w.postings@)) is None || total(
                    credit_column(w.postings@),
                ) is None),
            },
    {
        let ghost debits = debit_column(w.postings@);
        let ghost credits = credit_column(w.postings@);
        let mut total_debit = Decimal::zero();
        let mut total_credit = Decimal::zero();
        let mut lines: Vec<PostingView> = Vec::new();
        let mut i: usize = 0;
        while i < w.postings.len()
            invariant
                i <= w.postings.len(),
                debits == debit_column(w.postings@),
                credits == credit_column(w.postings@),
                total_to(debits, i as nat) == Some(total_debit@),
                total_to(credits, i as nat) == Some(total_credit@),
                lines@.len() == i,
                forall|k: int|
                    0 <= k < i ==> shows_line(#[trigger] lines@[k], w.postings@[k], self.accounts@),
            decreases w.postings.len() - i,
        {
            let l = &w.postings[i];
            proof {
                assert(debits[i as int] == l.debit@);
                assert(credits[i as int] == l.credit@);
                if total_to(debits, (i + 1) as nat) is None {
                    lemma_total_none(debits, (i + 1) as nat, debits.len());
                }
                if total_to(credits, (i + 1) as nat) is None {
                    lemma_total_none(credits, (i + 1) as nat, credits.len());
                }
            }
            total_debit = in_range(total_debit.checked_add(l.debit))?;
            total_credit = in_range(total_credit.checked_add(l.credit))?;
            lines.push(label(&self.accounts, l));
            i = i + 1;
        }
        Ok(
            JournalEntryView {
                id: w.entry.id,
                number: copy_text(&w.entry.number),
                entry_date: w.entry.entry_date,
                memo: w.entry.memo.clone(),
                reference: copy_text(&w.entry.reference),
                currency: w.entry.currency.clone(),
                status: w.entry.status,
                reverses_id: w.entry.reverses_id,
                reversed_by_id: w.entry.reversed_by_id,
                posted_at: w.entry.posted_at,
                created_at: w.entry.created_at,
                lines,
                total_debit,
                total_credit,
            },
        )
    }
}

/// Whether a row of the register is that of an entry: its amount is what it
/// debits.
pub open spec fn heads(h: JournalEntryHeader, w: Written) -> bool {
    &&& h.id == w.entry.id
    &&& opt_text(h.number) == opt_text(w.entry.number)
    &&& h.entry_date == w.entry.entry_date
    &&& h.memo@ == w.entry.memo@
    &&& opt_text(h.reference) == opt_text(w.entry.reference)
    &&& h.currency@ == w.entry.currency@
    &&& h.status == w.entry.status
    &&& total(debit_column(w.postings@)) == Some(h.amount@)
}

fn sum_debits(lines: &Vec<Posting>) -> (r: Result<Decimal, Error>)
    ensures
        match total(debit_column(lines@)) {
            Some(n) => r is Ok && r->Ok_0@ == n,
            None => refusal(r) == Some(Refusal::Overflow),
        },
{
    let ghost debits = debit_column(lines@);
    let mut sum = Decimal::zero();
    let mut i: usize = 0;
    while i < lines.len()
        invariant
            i <= lines.len(),
            debits == debit_column(lines@),
            total_to(debits, i as nat) == Some(sum@),
        decreases lines.len() - i,
    {
        proof {
            assert(debits[i as int] == lines@[i as int].debit@);
            if total_to(debits, (i + 1) as nat) is None {
                lemma_total_none(debits, (i + 1) as nat, debits.len());
            }
        }
        sum = in_range(sum.checked_add(lines[i].debit))?;
        i = i + 1;
    }
    Ok(sum)
}

fn head(w: &Written) -> (r: Result<JournalEntryHeader, Error>)
    ensures
        match r {
            Ok(h) => heads(h, *w),
            Err(e) => e@ == Refusal::Overflow && total(debit_column(w.postings@)) is None,
        },
{
    let amount = sum_debits(&w.postings)?;
    Ok(
        JournalEntryHeader {
            id: w.entry.id,
            number: copy_text(&w.entry.number),
            entry_date: w.entry.entry_date,
            memo: w.entry.memo.clone(),
            reference: copy_text(&w.entry.reference),
            currency: w.entry.currency.clone(),
            status: w.entry.status,
            amount,
        },
    )
}

// ---------------------------------------------------------------------------
// The register
// ---------------------------------------------------------------------------

/// A row of the register with the moment at which its entry was written.
#[derive(Debug)]
pub struct Registered {
    pub row: JournalEntryHeader,
    pub created_at: i64,
}

impl Ordered for Registered {
    /// The entry with the latest date stands first, and of one date the one that
    /// was written last.
    open spec fn precedes(a: Self, b: Self) -> bool {
        ||| earlier(b.row.entry_date@, a.row.entry_date@)
        ||| a.row.entry_date@ == b.row.entry_date@ && b.created_at < a.created_at
    }

    fn goes_before(&self, other: &Self) -> (r: bool) {
        other.row.entry_date.is_before(&self.row.entry_date) || (self.row.entry_date.is_same(
            &other.row.entry_date,
        ) && other.created_at < self.created_at)
    }
}

/// Whether a list heads entries, one by one.
pub open spec fn are_heads(list: Seq<Registered>, entries: Seq<Written>) -> bool {
    &&& list.len() == entries.len()
    &&& forall|i: int|
        0 <= i < list.len() ==> heads((#[trigger] list[i]).row, entries[i]) && list[i].created_at
            == entries[i].entry.created_at
}

pub open spec fn rows_of(list: Seq<Registered>) -> Seq<JournalEntryHeader> {
    list.map_values(|r: Registered| r.row)
}

fn take_rows(list: Vec<Registered>) -> (r: Vec<JournalEntryHeader>)
    ensures
        r@ == rows_of(list@),
{
    let ghost all = list@;
    let mut rest = backwards(list);
    let mut out: Vec<JournalEntryHeader> = Vec::new();
    while rest.len() > 0
        invariant
            rest@.len() + out@.len() == all.len(),
            forall|i: int| 0 <= i < rest@.len() ==> #[trigger] rest@[i] == all[all.len() - 1 - i],
            forall|i: int| 0 <= i < out@.len() ==> #[trigger] out@[i] == all[i].row,
        decreases rest.len(),
    {
        if let Some(x) = rest.pop() {
            out.push(x.row);
        }
    }
    assert(out@ =~= rows_of(all));
    out
}

/// Whether an outcome is the register of entries: the latest date first, and of
/// one date the entry that was written last. It fails where an amount leaves
/// the range.
pub open spec fn is_register(r: Result<Vec<JournalEntryHeader>, Error>, entries: Seq<Written>) -> bool {
    match r {
        Ok(list) => exists|rows: Seq<Registered>|
            #[trigger] are_heads(rows, entries) && list@ == rows_of(arranged(rows)),
        Err(e) => e@ == Refusal::Overflow && exists|i: int|
            0 <= i < entries.len() && total(debit_column((#[trigger] entries[i]).postings@))
                is None,
    }
}

pub open spec fn in_status(status: Option<EntryStatus>) -> spec_fn(Written) -> bool {
    |w: Written| status matches Some(s) ==> w.entry.status == s
}

/// Whether an entry is an expense voucher, which its number tells.
pub open spec fn is_voucher() -> spec_fn(Written) -> bool {
    |w: Written|
        match w.entry.number {
            Some(n) => starts(n@, "PV-"@),
            None => false,
        }
}

/// What an entry is picked by.
enum Choice {
    Status(Option<EntryStatus>),
    Vouchers,
}

spec fn chooses(c: Choice) -> spec_fn(Written) -> bool {
    match c {
        Choice::Status(s) => in_status(s),
        Choice::Vouchers => is_voucher(),
    }
}

fn is_chosen(w: &Written, c: &Choice) -> (r: bool)
    ensures
        r == chooses(*c)(*w),
{
    match c {
        Choice::Status(None) => true,
        Choice::Status(Some(s)) => w.entry.status == *s,
        Choice::Vouchers => match &w.entry.number {
            Some(n) => begins_with(n.as_str(), "PV-"),
            None => false,
        },
    }
}

fn headers(entries: &Vec<Written>, c: &Choice) -> (r: Result<Vec<JournalEntryHeader>, Error>)
    ensures
        is_register(r, kept(entries@, chooses(*c))),
{
    let ghost p = chooses(*c);
    let mut rows: Vec<Registered> = Vec::new();
    let mut i: usize = 0;
    while i < entries.len()
        invariant
            i <= entries.len(),
            p == chooses(*c),
            are_heads(rows@, kept_to(entries@, p, i as nat)),
        decreases entries.len() - i,
    {
        if is_chosen(&entries[i], c) {
            match head(&entries[i]) {
                Ok(row) => {
                    rows.push(Registered { row, created_at: entries[i].entry.created_at });
                },
                Err(e) => {
                    proof {
                        lemma_kept_at(entries@, p, i as int, entries@.len());
                        let at = kept_to(entries@, p, i as nat).len() as int;
                        assert(kept(entries@, p)[at] == entries@[i as int]);
                    }
                    return Err(e);
                },
            }
        }
        i = i + 1;
    }
    assert(are_heads(rows@, kept(entries@, p)));
    Ok(take_rows(arrange(rows)))
}

impl Ledger {
    /// The entries, or those in a status: the latest date first, and of one
    /// date the entry that was written last.
    pub fn list(entries: &Vec<Written>, status: Option<EntryStatus>) -> (r: Result<
        Vec<JournalEntryHeader>,
        Error,
    >)
        ensures
            is_register(r, kept(entries@, in_status(status))),
    {
        headers(entries, &Choice::Status(status))
    }
}

impl ExpenseService {
    /// The expense vouchers, in the order of the journal's list.
    pub fn list(entries: &Vec<Written>) -> (r: Result<Vec<JournalEntryHeader>, Error>)
        ensures
            is_register(r, kept(entries@, is_voucher())),
    {
        headers(entries, &Choice::Vouchers)
    }
}

} // verus!
