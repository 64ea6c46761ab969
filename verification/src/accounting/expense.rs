//! Expense recording: the everyday "we paid for something" operation.
//!
//! The caller names what the money was for (an expense account), how it was
//! paid (an asset account), the net amount and an optional input tax code. The
//! entry debits the expense and the recoverable tax, credits the payment
//! account, and is born posted.

use super::account::{has_id, position_by_id, refused, AccountType, Model as Account};
use super::journal::{
    are_postings, balance_refusal, credits_of, debits_of, is_head, posted_refusal, Ledger, Naming,
    NewEntry, PostingInput, Written,
};
use super::tax::{self, tax_due, Model as TaxCode, Store as TaxStore, TaxDirection};
use crate::date::Date;
use crate::decimal::{over, plus, rounded, times, worth, zero, Decimal, Num};
use crate::error::{in_range, refusal, Error, Refusal};
use crate::search::{first_from, first_where, lemma_first_from};
use crate::sums::{lemma_worth_sign, total, total_to};
use crate::text::{cat2, cat3, id_text, opt_text, show_id, trim, trimmed};
use vstd::prelude::*;

verus! {

/// A new expense as a caller supplies it.
#[derive(Debug)]
pub struct NewExpense {
    pub entry_date: Date,
    /// What the money was for, e.g. "Office stationery".
    pub memo: String,
    /// External document (a till slip, an invoice number).
    pub reference: Option<String>,
    /// The expense account this spend belongs to.
    pub expense_account_id: u128,
    /// The asset account the money left (cash, bank, a petty-cash float).
    pub payment_account_id: u128,
    /// The net amount, before tax.
    pub amount: Decimal,
    /// An input (purchase) tax code, when the spend carries recoverable tax.
    pub tax_code_id: Option<u128>,
    pub created_by: Option<u128>,
}

/// The tax an expense carries, where it carries any: the account it is booked
/// to, the amount, and the tax code's own code.
pub struct Carried {
    pub account_id: u128,
    pub amount: Num,
    pub code: Seq<char>,
}

pub open spec fn type_refusal(
    accounts: Seq<Account>,
    id: u128,
    wanted: AccountType,
    complaint: Seq<char>,
) -> Option<Refusal> {
    match first_where(accounts, has_id(id)) {
        None => Some(Refusal::NotFound("account "@ + id_text(id))),
        Some(a) => if a.account_type != wanted {
            Some(Refusal::Validation("account "@ + a.code@ + complaint))
        } else {
            None
        },
    }
}

/// The tax on an expense, or why it is refused. A code whose tax comes to
/// nothing adds no line.
pub open spec fn tax_carried(codes: Seq<TaxCode>, id: Option<u128>, amount: Num) -> Result<
    Option<Carried>,
    Refusal,
> {
    match id {
        None => Ok(None),
        Some(id) => match first_where(codes, tax::has_id(id)) {
            None => Err(Refusal::NotFound("tax code "@ + id_text(id))),
            Some(c) => if !c.is_active {
                Err(Refusal::Validation("tax code "@ + c.code@ + " is inactive"@))
            } else if c.direction != TaxDirection::Input {
                Err(
                    Refusal::Validation(
                        "tax code "@ + c.code@
                            + " is an output (sales) code; an expense needs an input (purchase) code"@,
                    ),
                )
            } else {
                match tax_due(amount, c.rate@) {
                    None => Err(Refusal::Overflow),
                    Some(t) => if t.0 <= 0 {
                        Ok(None)
                    } else {
                        match c.account_id {
                            None => Err(
                                Refusal::Validation(
                                    "tax code "@ + c.code@ + " has no account to post its tax to"@,
                                ),
                            ),
                            Some(a) => Ok(
                                Some(Carried { account_id: a, amount: t, code: c.code@ }),
                            ),
                        }
                    },
                }
            },
        },
    }
}

/// What the payment account pays: the amount and the tax on it.
pub open spec fn paid(amount: Num, tax: Option<Carried>) -> Option<Num> {
    match tax {
        None => Some(amount),
        Some(t) => plus(amount, t.amount),
    }
}

/// Why an expense cannot be turned into an entry, where it cannot.
pub open spec fn expense_refusal(
    accounts: Seq<Account>,
    codes: Seq<TaxCode>,
    new: NewExpense,
) -> Option<Refusal> {
    if new.amount@.0 <= 0 {
        Some(Refusal::Validation("the expense amount must be greater than zero"@))
    } else {
        match type_refusal(
            accounts,
            new.expense_account_id,
            AccountType::Expense,
            " is not an expense account"@,
        ) {
            Some(r) => Some(r),
            None => match type_refusal(
                accounts,
                new.payment_account_id,
                AccountType::Asset,
                " cannot pay an expense; pick a cash or bank (asset) account"@,
            ) {
                Some(r) => Some(r),
                None => match tax_carried(codes, new.tax_code_id, new.amount@) {
                    Err(r) => Some(r),
                    Ok(t) => if paid(new.amount@, t) is None {
                        Some(Refusal::Overflow)
                    } else {
                        None
                    },
                },
            },
        }
    }
}

pub open spec fn is_line(l: PostingInput, account_id: u128, debit: Num, credit: Num) -> bool {
    l.account_id == account_id && l.debit@ == debit && l.credit@ == credit
}

/// The lines of an expense: the expense, the tax where there is any, and what
/// was paid.
pub open spec fn are_expense_lines(
    lines: Seq<PostingInput>,
    new: NewExpense,
    tax: Option<Carried>,
) -> bool {
    let due = paid(new.amount@, tax)->0;
    &&& paid(new.amount@, tax) is Some
    &&& lines.len() == if tax is Some { 3int } else { 2 }
    &&& is_line(lines[0], new.expense_account_id, new.amount@, zero())
    &&& lines[0].memo is None
    &&& tax matches Some(t) ==> is_line(lines[1], t.account_id, t.amount, zero()) && opt_text(
        lines[1].memo,
    ) == Some(t.code + " on "@ + trimmed(new.memo@))
    &&& is_line(lines.last(), new.payment_account_id, zero(), due)
    &&& lines.last().memo is None
}

/// The entry of an expense.
pub open spec fn is_expense_entry(
    e: NewEntry,
    accounts: Seq<Account>,
    codes: Seq<TaxCode>,
    new: NewExpense,
) -> bool {
    &&& e.entry_date == new.entry_date
    &&& e.memo@ == new.memo@
    &&& opt_text(e.reference) == opt_text(new.reference)
    &&& first_where(accounts, has_id(new.expense_account_id)) is Some
    &&& e.currency@ == first_where(accounts, has_id(new.expense_account_id))->0.currency@
    &&& e.created_by == new.created_by
    &&& tax_carried(codes, new.tax_code_id, new.amount@) is Ok
    &&& are_expense_lines(e.lines@, new, tax_carried(codes, new.tax_code_id, new.amount@)->Ok_0)
}

/// Records expenses against a ledger and its tax codes.
#[derive(Debug)]
pub struct ExpenseService {
    pub ledger: Ledger,
    pub codes: TaxStore,
}

fn tax_line(codes: &TaxStore, new: &NewExpense) -> (r: Result<Option<PostingInput>, Error>)
    ensures
        match tax_carried(codes.codes@, new.tax_code_id, new.amount@) {
            Err(e) => refusal(r) == Some(e),
            Ok(None) => r is Ok && r->Ok_0 is None,
            Ok(Some(t)) => r is Ok && r->Ok_0 is Some && is_line(
                r->Ok_0->0,
                t.account_id,
                t.amount,
                zero(),
            ) && opt_text(r->Ok_0->0.memo) == Some(t.code + " on "@ + trimmed(new.memo@)),
        },
{
    let id = match new.tax_code_id {
        Some(id) => id,
        None => {
            return Ok(None);
        },
    };
    let code = codes.find_by_id(id)?;
    if !code.is_active {
        return Err(Error::Validation(cat3("tax code ", code.code.as_str(), " is inactive")));
    }
    if code.direction != TaxDirection::Input {
        return Err(
            Error::Validation(
                cat3(
                    "tax code ",
                    code.code.as_str(),
                    " is an output (sales) code; an expense needs an input (purchase) code",
                ),
            ),
        );
    }
    let amount = code.tax_on(new.amount)?;
    if !amount.is_positive() {
        return Ok(None);
    }
    match code.account_id {
        None => Err(
            Error::Validation(
                cat3("tax code ", code.code.as_str(), " has no account to post its tax to"),
            ),
        ),
        Some(account_id) => {
            let what = trim(new.memo.as_str());
            let memo = cat3(code.code.as_str(), " on ", what.as_str());
            Ok(
                Some(
                    PostingInput { account_id, debit: amount, credit: Decimal::zero(), memo: Some(memo) },
                ),
            )
        },
    }
}

impl ExpenseService {
    /// The entry an expense makes: the accounts must play their roles, and the
    /// payment covers the amount and its tax.
    pub fn entry_of(&self, new: &NewExpense) -> (r: Result<NewEntry, Error>)
        ensures
            refusal(r) == expense_refusal(self.ledger.accounts@, self.codes.codes@, *new),
            r matches Ok(e) ==> is_expense_entry(
                e,
                self.ledger.accounts@,
                self.codes.codes@,
                *new,
            ),
    {
        if !new.amount.is_positive() {
            return Err(
                Error::Validation("the expense amount must be greater than zero".to_owned()),
            );
        }
        let expense = match position_by_id(&self.ledger.accounts, new.expense_account_id) {
            Some(i) => &self.ledger.accounts[i],
            None => {
                let shown = show_id(new.expense_account_id);
                return Err(Error::NotFound(cat2("account ", shown.as_str())));
            },
        };
        if expense.account_type != AccountType::Expense {
            return Err(
                Error::Validation(
                    cat3("account ", expense.code.as_str(), " is not an expense account"),
                ),
            );
        }
        let payment = match position_by_id(&self.ledger.accounts, new.payment_account_id) {
            Some(i) => &self.ledger.accounts[i],
            None => {
                let shown = show_id(new.payment_account_id);
                return Err(Error::NotFound(cat2("account ", shown.as_str())));
            },
        };
        if payment.account_type != AccountType::Asset {
            return Err(
                Error::Validation(
                    cat3(
                        "account ",
                        payment.code.as_str(),
                        " cannot pay an expense; pick a cash or bank (asset) account",
                    ),
                ),
            );
        }
        let mut lines: Vec<PostingInput> = Vec::new();
        lines.push(
            PostingInput {
                account_id: expense.id,
                debit: new.amount,
                credit: Decimal::zero(),
                memo: None,
            },
        );
        let mut due = new.amount;
        if let Some(line) = tax_line(&self.codes, new)? {
            due = in_range(due.checked_add(line.debit))?;
            lines.push(line);
        }
        lines.push(
            PostingInput {
                account_id: payment.id,
                debit: Decimal::zero(),
                credit: due,
                memo: None,
            },
        );
        let reference = match &new.reference {
            Some(t) => Some(t.clone()),
            None => None,
        };
        Ok(
            NewEntry {
                entry_date: new.entry_date,
                memo: new.memo.clone(),
                reference,
                currency: expense.currency.clone(),
                lines,
                created_by: new.created_by,
            },
        )
    }

    /// Record an expense: build its entry and post it under a number. `currency` is why the
    /// expense account's currency code was refused, where it was.
    pub fn record(
        &self,
        new: &NewExpense,
        naming: &Naming,
        number: String,
        currency: Option<Error>,
    ) -> (r: Result<Written, Error>)
        requires
            naming.line_ids@.len() >= 3,
        ensures
            match expense_refusal(self.ledger.accounts@, self.codes.codes@, *new) {
                Some(e) => refusal(r) == Some(e),
                None => exists|e: NewEntry|
                    #![trigger posted_refusal(self.ledger, e, refused(currency))]
                    {
                        &&& is_expense_entry(e, self.ledger.accounts@, self.codes.codes@, *new)
                        &&& refusal(r) == posted_refusal(self.ledger, e, refused(currency))
                        &&& r matches Ok(w) ==> is_head(w.entry, e, *naming, Some(number@))
                            && are_postings(w.postings@, e.lines@, naming.line_ids@)
                    },
            },
    {
        let entry = self.entry_of(new)?;
        let ghost e = entry;
        let r = self.ledger.create_posted_in(entry, naming, number, currency);
        assert(refusal(r) == posted_refusal(self.ledger, e, refused(currency)));
        r
    }
}

/// An expense always balances: what it debits is worth exactly what it
/// credits, so that the balance rule never refuses what was paid.
pub proof fn expenses_balance(lines: Seq<PostingInput>, new: NewExpense, tax: Option<Carried>)
    requires
        new.amount@.0 > 0,
        are_expense_lines(lines, new, tax),
    ensures
        total(debits_of(lines)) is Some,
        total(credits_of(lines)) is Some,
        worth(total(debits_of(lines))->0) == worth(paid(new.amount@, tax)->0),
        worth(total(credits_of(lines))->0) == worth(paid(new.amount@, tax)->0),
        worth(paid(new.amount@, tax)->0) != 0 ==> balance_refusal(
            total(debits_of(lines)),
            total(credits_of(lines)),
        ) is None,
{
    let d = debits_of(lines);
    let c = credits_of(lines);
    let due = paid(new.amount@, tax)->0;
    reveal_with_fuel(total_to, 4);
    if tax is Some {
        assert(d =~= seq![new.amount@, tax->0.amount, zero()]);
        assert(c =~= seq![zero(), zero(), due]);
        assert(d[0] == new.amount@ && total_to(d, 0) == Some(zero()));
        assert(total_to(d, 1) == Some(new.amount@));
        assert(total_to(d, 2) == Some(due));
        assert(total_to(d, 3) == plus(due, zero()));
        assert(total_to(c, 2) == Some(zero()));
        assert(total_to(c, 3) == Some(due));
    } else {
        assert(d =~= seq![new.amount@, zero()]);
        assert(c =~= seq![zero(), due]);
        assert(d[0] == new.amount@ && total_to(d, 0) == Some(zero()));
        assert(total_to(d, 1) == Some(new.amount@));
        assert(total_to(d, 2) == Some(due));
        assert(total_to(c, 1) == Some(zero()));
        assert(total_to(c, 2) == Some(due));
    }
    lemma_worth_sign(due);
    lemma_worth_sign(zero());
}

/// An accepted expense says what was spent and what was paid: the spend, a positive
/// amount, goes to an expense account; the money leaves an asset account; a tax code
/// is an active one for purchases, its tax is its percentage of the spend, to the
/// cent, and goes to the code's account; and what leaves is the spend and the tax.
/// Accounts and codes are known by their ids.
pub proof fn expenses_pay_the_spend_and_its_tax(
    e: NewEntry,
    accounts: Seq<Account>,
    codes: Seq<TaxCode>,
    new: NewExpense,
    spent: int,
    paying: int,
    code: int,
)
    requires
        expense_refusal(accounts, codes, new) is None,
        is_expense_entry(e, accounts, codes, new),
        0 <= spent < accounts.len(),
        0 <= paying < accounts.len(),
        accounts[spent].id == new.expense_account_id,
        accounts[paying].id == new.payment_account_id,
        forall|i: int, j: int|
            0 <= i < j < accounts.len() ==> (#[trigger] accounts[i]).id != (
            #[trigger] accounts[j]).id,
        forall|i: int, j: int|
            0 <= i < j < codes.len() ==> (#[trigger] codes[i]).id != (#[trigger] codes[j]).id,
        new.tax_code_id matches Some(id) ==> 0 <= code < codes.len() && codes[code].id == id,
    ensures
        new.amount@.0 > 0,
        accounts[spent].account_type == AccountType::Expense,
        accounts[paying].account_type == AccountType::Asset,
        is_line(e.lines@[0], accounts[spent].id, new.amount@, zero()),
        new.tax_code_id is None ==> e.lines@.len() == 2 && is_line(
            e.lines@[1],
            accounts[paying].id,
            zero(),
            new.amount@,
        ),
        new.tax_code_id is Some ==> {
            let c = codes[code];
            let tax = rounded(over(times(new.amount@, c.rate@)->0, (100, 0))->0, 2);
            &&& c.is_active
            &&& c.direction == TaxDirection::Input
            &&& times(new.amount@, c.rate@) is Some
            &&& over(times(new.amount@, c.rate@)->0, (100, 0)) is Some
            &&& tax.0 <= 0 ==> e.lines@.len() == 2 && is_line(
                e.lines@[1],
                accounts[paying].id,
                zero(),
                new.amount@,
            )
            &&& tax.0 > 0 ==> e.lines@.len() == 3 && c.account_id is Some && is_line(
                e.lines@[1],
                c.account_id->0,
                tax,
                zero(),
            ) && (plus(new.amount@, tax) matches Some(due) && is_line(
                e.lines@[2],
                accounts[paying].id,
                zero(),
                due,
            ))
        },
{
    lemma_first_from(accounts, has_id(new.expense_account_id), 0);
    lemma_first_from(accounts, has_id(new.payment_account_id), 0);
    assert(has_id(new.expense_account_id)(accounts[spent]));
    assert(has_id(new.payment_account_id)(accounts[paying]));
    let i = first_from(accounts, has_id(new.expense_account_id), 0)->0;
    let j = first_from(accounts, has_id(new.payment_account_id), 0)->0;
    assert(i == spent && j == paying);
    if let Some(id) = new.tax_code_id {
        lemma_first_from(codes, tax::has_id(id), 0);
        assert(tax::has_id(id)(codes[code]));
        let k = first_from(codes, tax::has_id(id), 0)->0;
        assert(k == code);
    }
}

} // verus!
