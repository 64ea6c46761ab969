//! Ledger reads: the trial balance, a single account's ledger, and the two
//! financial statements.
//!
//! All of them read what has hit the ledger: posted entries and the entries
//! that a reversal corrected, which net to zero together. The trial balance
//! puts each account's ending balance in its natural column, so the two
//! columns foot to the same total.

use super::account::{
    has_id, normal_side, position_by_id, AccountType, Model as Account, NormalBalance,
};
use super::fiscal::{between, Year};
use super::journal::{effect, effect_to, Posting};
use crate::date::{
    day_before, day_number, earlier, is_date, lemma_day_before, lemma_day_number_orders, opt_day,
    Date, Day,
};
use crate::decimal::{max_places, minus, negated, opt, plus, worth, zero, Decimal, Num};
use crate::error::{in_range, refusal, Error, Refusal};
use crate::search::{
    find, first_from, first_where, kept, kept_to, keys_differ, lemma_kept_at, lemma_kept_places,
};
use crate::sums::{
    difference_of, exact_difference, exact_sum, lemma_total_push, lemma_worth_negated,
    lemma_worth_sign, nets_exactly, sum_of, total, total_to, worth_of, worth_to,
};
use crate::text::{cat2, id_text, opt_text, show_id};
use vstd::prelude::*;

verus! {

/// Debit and credit totals of one account.
#[derive(Clone, Copy, Debug)]
pub struct Totals {
    pub account_id: u128,
    pub debit: Decimal,
    pub credit: Decimal,
}

pub open spec fn totals_of(id: u128) -> spec_fn(Totals) -> bool {
    |t: Totals| t.account_id == id
}

/// The totals of an account, where it has any activity.
pub open spec fn found(totals: Seq<Totals>, id: u128) -> Option<Totals> {
    first_where(totals, totals_of(id))
}

pub open spec fn debit_of(totals: Seq<Totals>, id: u128) -> Num {
    match found(totals, id) {
        Some(t) => t.debit@,
        None => zero(),
    }
}

pub open spec fn credit_of(totals: Seq<Totals>, id: u128) -> Num {
    match found(totals, id) {
        Some(t) => t.credit@,
        None => zero(),
    }
}

/// A balance on the side on which it naturally grows.
pub open spec fn on_side(side: NormalBalance, debit: Num, credit: Num) -> Option<Num> {
    match side {
        NormalBalance::Debit => minus(debit, credit),
        NormalBalance::Credit => minus(credit, debit),
    }
}

/// An account's balance on its natural side.
pub open spec fn natural(totals: Seq<Totals>, acc: Account) -> Option<Num> {
    on_side(normal_side(acc.account_type), debit_of(totals, acc.id), credit_of(totals, acc.id))
}

/// The two columns of a trial balance: a net debit stands in the first, a net
/// credit in the second.
pub open spec fn columns(totals: Seq<Totals>, acc: Account) -> Option<(Num, Num)> {
    match minus(debit_of(totals, acc.id), credit_of(totals, acc.id)) {
        None => None,
        Some(net) => if net.0 >= 0 {
            Some((net, zero()))
        } else {
            Some((zero(), negated(net)))
        },
    }
}

pub(crate) fn position(totals: &Vec<Totals>, id: u128) -> (r: Option<usize>)
    ensures
        match r {
            Some(i) => i < totals@.len() && first_from(totals@, totals_of(id), 0) == Some(i as int),
            None => first_from(totals@, totals_of(id), 0) is None,
        },
{
    find(totals, Ghost(totals_of(id)), |x: &Totals| -> (b: bool)
        ensures
            b == totals_of(id)(*x),
        { x.account_id == id })
}

pub(crate) fn amounts(totals: &Vec<Totals>, id: u128) -> (r: (Decimal, Decimal))
    ensures
        r.0@ == debit_of(totals@, id),
        r.1@ == credit_of(totals@, id),
{
    match position(totals, id) {
        Some(i) => (totals[i].debit, totals[i].credit),
        None => (Decimal::zero(), Decimal::zero()),
    }
}

fn side_balance(side: NormalBalance, debit: Decimal, credit: Decimal) -> (r: Option<Decimal>)
    ensures
        opt(r) == on_side(side, debit@, credit@),
{
    match side {
        NormalBalance::Debit => debit.checked_sub(credit),
        NormalBalance::Credit => credit.checked_sub(debit),
    }
}

// ---------------------------------------------------------------------------
// Views
// ---------------------------------------------------------------------------

#[derive(Debug)]
pub struct TrialBalanceRow {
    pub account_id: u128,
    pub code: String,
    pub name: String,
    pub account_type: AccountType,
    pub currency: String,
    pub debit: Decimal,
    pub credit: Decimal,
}

#[derive(Debug)]
pub struct TrialBalance {
    pub as_of: Option<Date>,
    pub rows: Vec<TrialBalanceRow>,
    pub total_debit: Decimal,
    pub total_credit: Decimal,
}

/// A line that was posted to an account.
#[derive(Debug)]
pub struct PostedLine {
    pub entry_id: u128,
    pub number: Option<String>,
    pub entry_date: Date,
    /// When its entry was posted, in microseconds since the epoch.
    pub posted_at: Option<i64>,
    pub line_no: i32,
    pub memo: String,
    pub reference: Option<String>,
    pub debit: Decimal,
    pub credit: Decimal,
}

/// A line of an account's ledger, with the balance after it on the account's
/// natural side.
#[derive(Debug)]
pub struct AccountLedgerLine {
    pub entry_id: u128,
    pub number: Option<String>,
    pub entry_date: Date,
    pub memo: String,
    pub reference: Option<String>,
    pub debit: Decimal,
    pub credit: Decimal,
    pub balance: Decimal,
}

#[derive(Debug)]
pub struct AccountLedger {
    pub account_id: u128,
    pub code: String,
    pub name: String,
    pub account_type: AccountType,
    pub currency: String,
    pub opening_balance: Decimal,
    pub closing_balance: Decimal,
    pub lines: Vec<AccountLedgerLine>,
}

/// One account's contribution to a statement, on its natural side.
#[derive(Debug)]
pub struct StatementLine {
    pub account_id: u128,
    pub code: String,
    pub name: String,
    pub amount: Decimal,
}

/// A titled group of statement lines with its subtotal (e.g. "Assets").
#[derive(Debug)]
pub struct StatementSection {
    pub title: String,
    pub lines: Vec<StatementLine>,
    pub total: Decimal,
}

/// The balance sheet. The income that is still in the nominal accounts counts
/// as equity: `prior_earnings` is that of the fiscal years before the current
/// one, `current_earnings` that of the current one.
#[derive(Debug)]
pub struct BalanceSheet {
    pub as_of: Option<Date>,
    pub assets: StatementSection,
    pub liabilities: StatementSection,
    pub equity: StatementSection,
    pub prior_earnings: Decimal,
    pub current_earnings: Decimal,
    pub total_assets: Decimal,
    pub total_liabilities_and_equity: Decimal,
    pub balanced: bool,
}

#[derive(Debug)]
pub struct IncomeStatement {
    pub from: Option<Date>,
    pub to: Option<Date>,
    pub revenue: StatementSection,
    pub expenses: StatementSection,
    pub net_income: Decimal,
}

// ---------------------------------------------------------------------------
// Statement sections
// ---------------------------------------------------------------------------

/// The subtotal of the accounts of a type among the first `n`.
pub open spec fn section_total_to(
    accounts: Seq<Account>,
    totals: Seq<Totals>,
    ty: AccountType,
    n: nat,
) -> Option<Num>
    decreases n,
{
    if n == 0 {
        Some(zero())
    } else {
        let rest = section_total_to(accounts, totals, ty, (n - 1) as nat);
        if accounts[n - 1].account_type == ty {
            sum_of(rest, natural(totals, accounts[n - 1]))
        } else {
            rest
        }
    }
}

pub open spec fn has_balance(totals: Seq<Totals>, acc: Account) -> bool {
    match natural(totals, acc) {
        Some(n) => n.0 != 0,
        None => false,
    }
}

/// The accounts of a type among the first `n` whose balance is not zero.
pub open spec fn section_accounts_to(
    accounts: Seq<Account>,
    totals: Seq<Totals>,
    ty: AccountType,
    n: nat,
) -> Seq<Account> {
    kept_to(accounts, |acc: Account| acc.account_type == ty && has_balance(totals, acc), n)
}

pub open spec fn section_total(
    accounts: Seq<Account>,
    totals: Seq<Totals>,
    ty: AccountType,
) -> Option<Num> {
    section_total_to(accounts, totals, ty, accounts.len())
}

pub open spec fn section_accounts(
    accounts: Seq<Account>,
    totals: Seq<Totals>,
    ty: AccountType,
) -> Seq<Account> {
    section_accounts_to(accounts, totals, ty, accounts.len())
}

pub open spec fn is_statement_line(l: StatementLine, acc: Account, totals: Seq<Totals>) -> bool {
    &&& l.account_id == acc.id
    &&& l.code@ == acc.code@
    &&& l.name@ == acc.name@
    &&& Some(l.amount@) == natural(totals, acc)
}

/// The section of a type: every balance of the type counts, and those that are
/// not zero are listed.
pub open spec fn is_section(
    s: StatementSection,
    title: Seq<char>,
    accounts: Seq<Account>,
    totals: Seq<Totals>,
    ty: AccountType,
) -> bool {
    let shown = section_accounts(accounts, totals, ty);
    &&& s.title@ == title
    &&& section_total(accounts, totals, ty) == Some(s.total@)
    &&& s.lines@.len() == shown.len()
    &&& forall|i: int|
        0 <= i < shown.len() ==> is_statement_line(#[trigger] s.lines@[i], shown[i], totals)
}

proof fn lemma_section_none(
    accounts: Seq<Account>,
    totals: Seq<Totals>,
    ty: AccountType,
    i: nat,
    n: nat,
)
    requires
        i <= n,
        section_total_to(accounts, totals, ty, i) is None,
    ensures
        section_total_to(accounts, totals, ty, n) is None,
    decreases n,
{
    if i < n {
        lemma_section_none(accounts, totals, ty, i, (n - 1) as nat);
    }
}

/// The amounts of a section's lines.
pub open spec fn line_amounts(lines: Seq<StatementLine>) -> Seq<Num> {
    lines.map_values(|l: StatementLine| l.amount@)
}

/// Whether two numbers are the same, or both zero.
pub open spec fn agree(a: Num, b: Num) -> bool {
    a == b || (a.0 == 0 && b.0 == 0)
}

/// Whether the total of a section is the sum of its lines, added up one after
/// the other.
pub open spec fn adds_up(s: StatementSection) -> bool {
    total(line_amounts(s.lines@)) matches Some(t) && agree(t, s.total@)
}

impl StatementSection {
    pub fn new(title: &str) -> (r: StatementSection)
        ensures
            r.title@ == title@,
            r.lines@.len() == 0,
            r.total@ == zero(),
            adds_up(r),
    {
        StatementSection { title: title.to_owned(), lines: Vec::new(), total: Decimal::zero() }
    }

    /// Add an account's balance. The total always counts it; a balance of zero
    /// is not listed. False, with nothing changed, where the total leaves the
    /// range.
    pub fn push(&mut self, account: &Account, amount: Decimal) -> (r: bool)
        ensures
            r == (plus(old(self).total@, amount@) is Some),
            !r ==> *final(self) == *old(self),
            r ==> final(self).title == old(self).title && plus(old(self).total@, amount@) == Some(
                final(self).total@,
            ),
            r && amount@.0 == 0 ==> final(self).lines == old(self).lines,
            r && amount@.0 != 0 ==> {
                let l = final(self).lines@.last();
                &&& final(self).lines@ == old(self).lines@.push(l)
                &&& l.account_id == account.id
                &&& l.code@ == account.code@
                &&& l.name@ == account.name@
                &&& l.amount == amount
            },
            adds_up(*old(self)) ==> adds_up(*final(self)),
    {
        proof {
            let lines = old(self).lines@;
            assert forall|l: StatementLine| #[trigger] line_amounts(lines.push(l))
                == line_amounts(lines).push(l.amount@) by {
                assert(line_amounts(lines.push(l)) =~= line_amounts(lines).push(l.amount@));
            }
            lemma_total_push(line_amounts(lines), amount@);
        }
        match self.total.checked_add(amount) {
            Some(total) => {
                self.total = total;
            },
            None => {
                return false;
            },
        }
        if !amount.is_zero() {
            self.lines.push(
                StatementLine {
                    account_id: account.id,
                    code: account.code.clone(),
                    name: account.name.clone(),
                    amount,
                },
            );
        }
        true
    }
}

/// The section of the accounts of a type.
pub(crate) fn section(title: &str, accounts: &Vec<Account>, totals: &Vec<Totals>, ty: AccountType) -> (r:
    Result<StatementSection, Error>)
    ensures
        match r {
            Ok(s) => is_section(s, title@, accounts@, totals@, ty),
            Err(e) => e@ == Refusal::Overflow && section_total(accounts@, totals@, ty) is None,
        },
{
    let mut out = StatementSection::new(title);
    let mut i: usize = 0;
    while i < accounts.len()
        invariant
            i <= accounts.len(),
            out.title@ == title@,
            section_total_to(accounts@, totals@, ty, i as nat) == Some(out.total@),
            out.lines@.len() == section_accounts_to(accounts@, totals@, ty, i as nat).len(),
            forall|j: int|
                0 <= j < out.lines@.len() ==> is_statement_line(
                    #[trigger] out.lines@[j],
                    section_accounts_to(accounts@, totals@, ty, i as nat)[j],
                    totals@,
                ),
        decreases accounts.len() - i,
    {
        let acc = &accounts[i];
        if acc.account_type == ty {
            let (debit, credit) = amounts(totals, acc.id);
            match side_balance(ty.normal_balance(), debit, credit) {
                None => {
                    proof {
                        lemma_section_none(
                            accounts@,
                            totals@,
                            ty,
                            (i + 1) as nat,
                            accounts@.len(),
                        );
                    }
                    return Err(Error::Overflow);
                },
                Some(amount) => {
                    if !out.push(acc, amount) {
                        proof {
                            lemma_section_none(
                                accounts@,
                                totals@,
                                ty,
                                (i + 1) as nat,
                                accounts@.len(),
                            );
                        }
                        return Err(Error::Overflow);
                    }
                },
            }
        }
        i = i + 1;
    }
    Ok(out)
}

// ---------------------------------------------------------------------------
// Net income
// ---------------------------------------------------------------------------

/// Revenue less expenses of the first `n` accounts.
pub open spec fn net_income_to(accounts: Seq<Account>, totals: Seq<Totals>, n: nat) -> Option<Num>
    decreases n,
{
    if n == 0 {
        Some(zero())
    } else {
        let rest = net_income_to(accounts, totals, (n - 1) as nat);
        let acc = accounts[n - 1];
        if found(totals, acc.id) is None {
            rest
        } else if acc.account_type == AccountType::Revenue {
            sum_of(rest, natural(totals, acc))
        } else if acc.account_type == AccountType::Expense {
            difference_of(rest, natural(totals, acc))
        } else {
            rest
        }
    }
}

/// Revenue less expenses.
pub open spec fn net_income(accounts: Seq<Account>, totals: Seq<Totals>) -> Option<Num> {
    net_income_to(accounts, totals, accounts.len())
}

proof fn lemma_net_income_none(accounts: Seq<Account>, totals: Seq<Totals>, i: nat, n: nat)
    requires
        i <= n,
        net_income_to(accounts, totals, i) is None,
    ensures
        net_income_to(accounts, totals, n) is None,
    decreases n,
{
    if i < n {
        lemma_net_income_none(accounts, totals, i, (n - 1) as nat);
    }
}

/// The net income that a set of totals implies.
pub fn net_income_of(accounts: &Vec<Account>, totals: &Vec<Totals>) -> (r: Result<Decimal, Error>)
    ensures
        match r {
            Ok(n) => net_income(accounts@, totals@) == Some(n@),
            Err(e) => e@ == Refusal::Overflow && net_income(accounts@, totals@) is None,
        },
{
    let mut net = Decimal::zero();
    let mut i: usize = 0;
    while i < accounts.len()
        invariant
            i <= accounts.len(),
            net_income_to(accounts@, totals@, i as nat) == Some(net@),
        decreases accounts.len() - i,
    {
        let acc = &accounts[i];
        if let Some(k) = position(totals, acc.id) {
            let t = totals[k];
            let next = match acc.account_type {
                AccountType::Revenue => match t.credit.checked_sub(t.debit) {
                    Some(x) => net.checked_add(x),
                    None => None,
                },
                AccountType::Expense => match t.debit.checked_sub(t.credit) {
                    Some(x) => net.checked_sub(x),
                    None => None,
                },
                _ => Some(net),
            };
            match next {
                Some(n) => {
                    net = n;
                },
                None => {
                    proof {
                        lemma_net_income_none(accounts@, totals@, (i + 1) as nat, accounts@.len());
                    }
                    return Err(Error::Overflow);
                },
            }
        }
        i = i + 1;
    }
    Ok(net)
}

// ---------------------------------------------------------------------------
// Queries
// ---------------------------------------------------------------------------

/// Whether an account stands in the trial balance: it has activity, or is
/// active.
pub open spec fn stands(totals: Seq<Totals>) -> spec_fn(Account) -> bool {
    |acc: Account| acc.is_active || found(totals, acc.id) is Some
}

/// The footing of the two columns over the first `n` accounts. One without
/// activity adds nothing.
pub open spec fn footing_to(accounts: Seq<Account>, totals: Seq<Totals>, n: nat) -> Option<
    (Num, Num),
>
    decreases n,
{
    if n == 0 {
        Some((zero(), zero()))
    } else {
        let rest = footing_to(accounts, totals, (n - 1) as nat);
        if found(totals, accounts[n - 1].id) is None {
            rest
        } else {
            match (rest, columns(totals, accounts[n - 1])) {
                (Some((d, c)), Some((x, y))) => match (plus(d, x), plus(c, y)) {
                    (Some(dx), Some(cy)) => Some((dx, cy)),
                    _ => None,
                },
                _ => None,
            }
        }
    }
}

pub open spec fn footing(accounts: Seq<Account>, totals: Seq<Totals>) -> Option<(Num, Num)> {
    footing_to(accounts, totals, accounts.len())
}

pub open spec fn is_trial_row(row: TrialBalanceRow, acc: Account, totals: Seq<Totals>) -> bool {
    &&& row.account_id == acc.id
    &&& row.code@ == acc.code@
    &&& row.name@ == acc.name@
    &&& row.account_type == acc.account_type
    &&& row.currency@ == acc.currency@
    &&& columns(totals, acc) == Some((row.debit@, row.credit@))
}

/// The trial balance of totals: one row for each account that has activity or is
/// active, in the order of the chart, and the footing of the two columns.
pub open spec fn is_trial_balance(
    tb: TrialBalance,
    accounts: Seq<Account>,
    totals: Seq<Totals>,
) -> bool {
    let shown = kept(accounts, stands(totals));
    &&& footing(accounts, totals) == Some((tb.total_debit@, tb.total_credit@))
    &&& tb.rows@.len() == shown.len()
    &&& forall|i: int|
        0 <= i < shown.len() ==> is_trial_row(#[trigger] tb.rows@[i], shown[i], totals)
}

proof fn lemma_footing_none(accounts: Seq<Account>, totals: Seq<Totals>, i: nat, n: nat)
    requires
        i <= n,
        footing_to(accounts, totals, i) is None,
    ensures
        footing_to(accounts, totals, n) is None,
    decreases n,
{
    if i < n {
        lemma_footing_none(accounts, totals, i, (n - 1) as nat);
    }
}

/// The balance after the first `n` lines.
pub open spec fn running_to(
    opening: Num,
    lines: Seq<PostedLine>,
    side: NormalBalance,
    n: nat,
) -> Option<Num>
    decreases n,
{
    if n == 0 {
        Some(opening)
    } else {
        let l = lines[n - 1];
        sum_of(
            running_to(opening, lines, side, (n - 1) as nat),
            on_side(side, l.debit@, l.credit@),
        )
    }
}

proof fn lemma_running_none(
    opening: Num,
    lines: Seq<PostedLine>,
    side: NormalBalance,
    i: nat,
    n: nat,
)
    requires
        i <= n,
        running_to(opening, lines, side, i) is None,
    ensures
        running_to(opening, lines, side, n) is None,
    decreases n,
{
    if i < n {
        lemma_running_none(opening, lines, side, i, (n - 1) as nat);
    }
}

/// The ledger line of a posted line.
pub open spec fn shows_line(l: AccountLedgerLine, p: PostedLine) -> bool {
    &&& l.entry_id == p.entry_id
    &&& opt_text(l.number) == opt_text(p.number)
    &&& l.entry_date == p.entry_date
    &&& l.memo@ == p.memo@
    &&& opt_text(l.reference) == opt_text(p.reference)
    &&& l.debit == p.debit
    &&& l.credit == p.credit
}

/// What an account stood at before its window, on its natural side.
pub open spec fn opening_of(account: Account, before: Option<Totals>) -> Option<Num> {
    match before {
        Some(t) => on_side(normal_side(account.account_type), t.debit@, t.credit@),
        None => Some(zero()),
    }
}

pub open spec fn covers_day(y: Year, d: Day) -> bool {
    !earlier(d, y.start_date@) && !earlier(y.end_date@, d)
}

/// The day before the fiscal year that covers a date, where one does.
pub open spec fn cutoff_from(years: Seq<Year>, d: Day, from: int) -> Option<Day>
    decreases years.len() - from,
{
    if from < 0 || from >= years.len() {
        None
    } else if covers_day(years[from], d) {
        if years[from].start_date@ == (-262143int, 1int, 1int) {
            None
        } else {
            Some(day_before(years[from].start_date@))
        }
    } else {
        cutoff_from(years, d, from + 1)
    }
}

/// The last day of the earnings that count as retained: the day before the
/// fiscal year that covers the reference date. Nothing where no year covers
/// it, since there is no boundary to split on.
pub fn prior_cutoff(years: &Vec<Year>, reference: Date) -> (r: Option<Date>)
    ensures
        opt_day(r) == cutoff_from(years@, reference@, 0),
{
    let mut i: usize = 0;
    while i < years.len()
        invariant
            i <= years.len(),
            cutoff_from(years@, reference@, 0) == cutoff_from(years@, reference@, i as int),
        decreases years.len() - i,
    {
        let y = &years[i];
        if !reference.is_before(&y.start_date) && !y.end_date.is_before(&reference) {
            return y.start_date.pred();
        }
        i = i + 1;
    }
    None
}

/// Reads over a chart of accounts.
#[derive(Debug)]
pub struct LedgerQueries {
    pub accounts: Vec<Account>,
}

/// What the liabilities, the equity and the income come to together.
pub open spec fn claims(accounts: Seq<Account>, totals: Seq<Totals>) -> Option<Num> {
    sum_of(
        sum_of(
            section_total(accounts, totals, AccountType::Liability),
            section_total(accounts, totals, AccountType::Equity),
        ),
        net_income(accounts, totals),
    )
}

/// The retained part of the income: nothing without a fiscal year to split on.
pub open spec fn retained(accounts: Seq<Account>, prior: Option<Seq<Totals>>) -> Option<Num> {
    match prior {
        Some(p) => net_income(accounts, p),
        None => Some(zero()),
    }
}

/// Whether every figure of a balance sheet stays in range.
pub open spec fn sheet_in_range(
    accounts: Seq<Account>,
    totals: Seq<Totals>,
    prior: Option<Seq<Totals>>,
) -> bool {
    &&& section_total(accounts, totals, AccountType::Asset) is Some
    &&& claims(accounts, totals) is Some
    &&& difference_of(net_income(accounts, totals), retained(accounts, prior)) is Some
}

/// The balance sheet of totals.
pub open spec fn is_balance_sheet(
    bs: BalanceSheet,
    accounts: Seq<Account>,
    totals: Seq<Totals>,
    prior: Option<Seq<Totals>>,
) -> bool {
    &&& is_section(bs.assets, "Assets"@, accounts, totals, AccountType::Asset)
    &&& is_section(bs.liabilities, "Liabilities"@, accounts, totals, AccountType::Liability)
    &&& is_section(bs.equity, "Equity"@, accounts, totals, AccountType::Equity)
    &&& Some(bs.prior_earnings@) == retained(accounts, prior)
    &&& Some(bs.current_earnings@) == difference_of(
        net_income(accounts, totals),
        retained(accounts, prior),
    )
    &&& bs.total_assets == bs.assets.total
    &&& Some(bs.total_liabilities_and_equity@) == claims(accounts, totals)
    &&& bs.balanced == (worth(bs.total_assets@) == worth(bs.total_liabilities_and_equity@))
}

pub open spec fn is_income_statement(
    s: IncomeStatement,
    accounts: Seq<Account>,
    totals: Seq<Totals>,
) -> bool {
    &&& is_section(s.revenue, "Revenue"@, accounts, totals, AccountType::Revenue)
    &&& is_section(s.expenses, "Expenses"@, accounts, totals, AccountType::Expense)
    &&& Some(s.net_income@) == difference_of(
        section_total(accounts, totals, AccountType::Revenue),
        section_total(accounts, totals, AccountType::Expense),
    )
}

/// Whether an outcome is an account's ledger over lines, each with the balance
/// after it on the account's natural side. It fails where a balance leaves the
/// range.
pub open spec fn is_run(
    r: Result<AccountLedger, Error>,
    account: Account,
    before: Option<Totals>,
    lines: Seq<PostedLine>,
) -> bool {
    let side = normal_side(account.account_type);
    let opening = opening_of(account, before);
    match r {
        Ok(l) => {
            &&& l.account_id == account.id
            &&& l.code@ == account.code@
            &&& l.name@ == account.name@
            &&& l.account_type == account.account_type
            &&& l.currency@ == account.currency@
            &&& Some(l.opening_balance@) == opening
            &&& Some(l.closing_balance@) == running_to(opening->0, lines, side, lines.len())
            &&& l.lines@.len() == lines.len()
            &&& forall|i: int|
                0 <= i < lines.len() ==> shows_line(#[trigger] l.lines@[i], lines[i]) && Some(
                    l.lines@[i].balance@,
                ) == running_to(opening->0, lines, side, (i + 1) as nat)
        },
        Err(e) => e@ == Refusal::Overflow && (opening is None || running_to(
            opening->0,
            lines,
            side,
            lines.len(),
        ) is None),
    }
}

fn trial_row(acc: &Account, debit: Decimal, credit: Decimal) -> (r: TrialBalanceRow)
    ensures
        r.account_id == acc.id,
        r.code@ == acc.code@,
        r.name@ == acc.name@,
        r.account_type == acc.account_type,
        r.currency@ == acc.currency@,
        r.debit == debit,
        r.credit == credit,
{
    TrialBalanceRow {
        account_id: acc.id,
        code: acc.code.clone(),
        name: acc.name.clone(),
        account_type: acc.account_type,
        currency: acc.currency.clone(),
        debit,
        credit,
    }
}

impl LedgerQueries {
    /// The trial balance: one row per account with activity (or that is
    /// active), each in its natural column.
    pub fn trial_balance(&self, as_of: Option<Date>, totals: &Vec<Totals>) -> (r: Result<
        TrialBalance,
        Error,
    >)
        ensures
            match r {
                Ok(tb) => tb.as_of == as_of && is_trial_balance(tb, self.accounts@, totals@),
                Err(e) => e@ == Refusal::Overflow && footing(self.accounts@, totals@) is None,
            },
    {
        let ghost chart = self.accounts@;
        let mut rows: Vec<TrialBalanceRow> = Vec::new();
        let mut total_debit = Decimal::zero();
        let mut total_credit = Decimal::zero();
        let mut i: usize = 0;
        while i < self.accounts.len()
            invariant
                i <= self.accounts.len(),
                chart == self.accounts@,
                footing_to(chart, totals@, i as nat) == Some((total_debit@, total_credit@)),
                rows@.len() == kept_to(chart, stands(totals@), i as nat).len(),
                forall|j: int|
                    0 <= j < rows@.len() ==> is_trial_row(
                        #[trigger] rows@[j],
                        kept_to(chart, stands(totals@), i as nat)[j],
                        totals@,
                    ),
            decreases self.accounts.len() - i,
        {
            let acc = &self.accounts[i];
            if let Some(k) = position(totals, acc.id) {
                let t = totals[k];
                let sides = match t.debit.checked_sub(t.credit) {
                    None => None,
                    Some(net) => {
                        let (debit, credit) = if net.is_negative() {
                            (Decimal::zero(), net.negate())
                        } else {
                            (net, Decimal::zero())
                        };
                        match (total_debit.checked_add(debit), total_credit.checked_add(credit)) {
                            (Some(d), Some(c)) => Some((debit, credit, d, c)),
                            _ => None,
                        }
                    },
                };
                match sides {
                    None => {
                        proof {
                            lemma_footing_none(chart, totals@, (i + 1) as nat, chart.len());
                        }
                        return Err(Error::Overflow);
                    },
                    Some((debit, credit, d, c)) => {
                        total_debit = d;
                        total_credit = c;
                        rows.push(trial_row(acc, debit, credit));
                    },
                }
            } else if acc.is_active {
                rows.push(trial_row(acc, Decimal::zero(), Decimal::zero()));
            }
            i = i + 1;
        }
        Ok(TrialBalance { as_of, rows, total_debit, total_credit })
    }

    /// The balance sheet: assets, liabilities and equity at their ending
    /// balances, with the income still in the nominal accounts folded in.
    /// `prior` are the totals up to the day before the current fiscal year.
    pub fn balance_sheet(
        &self,
        as_of: Option<Date>,
        totals: &Vec<Totals>,
        prior: Option<&Vec<Totals>>,
    ) -> (r: Result<BalanceSheet, Error>)
        ensures
            ({
                let before = match prior {
                    Some(p) => Some(p@),
                    None => None,
                };
                match r {
                    Ok(bs) => bs.as_of == as_of && is_balance_sheet(
                        bs,
                        self.accounts@,
                        totals@,
                        before,
                    ),
                    Err(e) => e@ == Refusal::Overflow && !sheet_in_range(
                        self.accounts@,
                        totals@,
                        before,
                    ),
                }
            }),
    {
        let assets = section("Assets", &self.accounts, totals, AccountType::Asset)?;
        let liabilities = section("Liabilities", &self.accounts, totals, AccountType::Liability)?;
        let equity = section("Equity", &self.accounts, totals, AccountType::Equity)?;
        let net = net_income_of(&self.accounts, totals)?;
        let prior_earnings = match prior {
            Some(p) => net_income_of(&self.accounts, p)?,
            None => Decimal::zero(),
        };
        let current_earnings = in_range(net.checked_sub(prior_earnings))?;
        let total_assets = assets.total;
        let held = in_range(liabilities.total.checked_add(equity.total))?;
        let total_liabilities_and_equity = in_range(held.checked_add(net))?;
        let balanced = total_assets.equals(&total_liabilities_and_equity);
        Ok(
            BalanceSheet {
                as_of,
                assets,
                liabilities,
                equity,
                prior_earnings,
                current_earnings,
                total_assets,
                total_liabilities_and_equity,
                balanced,
            },
        )
    }

    /// The income statement over a window: revenue and expenses at their
    /// activity within it, and the net income.
    pub fn income_statement(&self, from: Option<Date>, to: Option<Date>, totals: &Vec<Totals>) -> (r:
        Result<IncomeStatement, Error>)
        ensures
            match r {
                Ok(s) => s.from == from && s.to == to && is_income_statement(
                    s,
                    self.accounts@,
                    totals@,
                ),
                Err(e) => e@ == Refusal::Overflow && difference_of(
                    section_total(self.accounts@, totals@, AccountType::Revenue),
                    section_total(self.accounts@, totals@, AccountType::Expense),
                ) is None,
            },
    {
        let revenue = section("Revenue", &self.accounts, totals, AccountType::Revenue)?;
        let expenses = section("Expenses", &self.accounts, totals, AccountType::Expense)?;
        let net_income = in_range(revenue.total.checked_sub(expenses.total))?;
        Ok(IncomeStatement { from, to, revenue, expenses, net_income })
    }

    /// A single account's ledger: the lines posted to it, in order, with the
    /// balance after each on the account's natural side. `before` are its
    /// totals before the window, where it had any.
    pub fn run_ledger(&self, id: u128, before: Option<Totals>, lines: &Vec<PostedLine>) -> (r:
        Result<AccountLedger, Error>)
        ensures
            match first_where(self.accounts@, has_id(id)) {
                None => refusal(r) == Some(Refusal::NotFound("account "@ + id_text(id))),
                Some(account) => is_run(r, account, before, lines@),
            },
    {
        let account = match position_by_id(&self.accounts, id) {
            Some(k) => &self.accounts[k],
            None => {
                let shown = show_id(id);
                return Err(Error::NotFound(cat2("account ", shown.as_str())));
            },
        };
        let side = account.account_type.normal_balance();
        let opening = match before {
            Some(t) => in_range(side_balance(side, t.debit, t.credit))?,
            None => Decimal::zero(),
        };
        let mut running = opening;
        let mut out: Vec<AccountLedgerLine> = Vec::new();
        let mut i: usize = 0;
        while i < lines.len()
            invariant
                i <= lines.len(),
                first_where(self.accounts@, has_id(id)) == Some(*account),
                side == normal_side(account.account_type),
                Some(opening@) == opening_of(*account, before),
                out@.len() == i,
                running_to(opening@, lines@, side, i as nat) == Some(running@),
                forall|j: int|
                    0 <= j < i ==> shows_line(#[trigger] out@[j], lines@[j]) && Some(
                        out@[j].balance@,
                    ) == running_to(opening@, lines@, side, (j + 1) as nat),
            decreases lines.len() - i,
        {
            let line = &lines[i];
            let next = match side_balance(side, line.debit, line.credit) {
                Some(x) => running.checked_add(x),
                None => None,
            };
            match next {
                Some(n) => {
                    running = n;
                },
                None => {
                    proof {
                        lemma_running_none(opening@, lines@, side, (i + 1) as nat, lines@.len());
                    }
                    return Err(Error::Overflow);
                },
            }
            out.push(
                AccountLedgerLine {
                    entry_id: line.entry_id,
                    number: line.number.clone(),
                    entry_date: line.entry_date,
                    memo: line.memo.clone(),
                    reference: line.reference.clone(),
                    debit: line.debit,
                    credit: line.credit,
                    balance: running,
                },
            );
            i = i + 1;
        }
        Ok(
            AccountLedger {
                account_id: account.id,
                code: account.code.clone(),
                name: account.name.clone(),
                account_type: account.account_type,
                currency: account.currency.clone(),
                opening_balance: opening,
                closing_balance: running,
                lines: out,
            },
        )
    }
}

// ---------------------------------------------------------------------------
// Laws
// ---------------------------------------------------------------------------

/// What an account is worth: its debits less its credits.
pub open spec fn net_worth(totals: Seq<Totals>, id: u128) -> int {
    worth(debit_of(totals, id)) - worth(credit_of(totals, id))
}

/// What the first `n` accounts are worth together.
pub open spec fn net_worth_to(accounts: Seq<Account>, totals: Seq<Totals>, n: nat) -> int
    decreases n,
{
    if n == 0 {
        0
    } else {
        net_worth_to(accounts, totals, (n - 1) as nat) + net_worth(totals, accounts[n - 1].id)
    }
}

/// What those of the first `n` accounts that have the type are worth together.
pub open spec fn type_worth_to(
    accounts: Seq<Account>,
    totals: Seq<Totals>,
    ty: AccountType,
    n: nat,
) -> int
    decreases n,
{
    if n == 0 {
        0
    } else {
        type_worth_to(accounts, totals, ty, (n - 1) as nat) + if accounts[n - 1].account_type
            == ty {
            net_worth(totals, accounts[n - 1].id)
        } else {
            0
        }
    }
}

/// Whether each account's balance is computed without rounding.
pub open spec fn balances_exactly(accounts: Seq<Account>, totals: Seq<Totals>) -> bool {
    forall|i: int|
        0 <= i < accounts.len() ==> nets_exactly(
            debit_of(totals, (#[trigger] accounts[i]).id),
            credit_of(totals, accounts[i].id),
        )
}

/// Whether the balances of a type are added up without rounding.
pub open spec fn section_exact(
    accounts: Seq<Account>,
    totals: Seq<Totals>,
    ty: AccountType,
) -> bool {
    forall|i: int|
        0 <= i < accounts.len() && (#[trigger] accounts[i]).account_type == ty ==> match (
            section_total_to(accounts, totals, ty, i as nat),
            natural(totals, accounts[i]),
        ) {
            (Some(t), Some(n)) => exact_sum(t, n),
            _ => true,
        }
}

/// Whether the net income is computed without rounding.
pub open spec fn income_exact(accounts: Seq<Account>, totals: Seq<Totals>) -> bool {
    forall|i: int|
        0 <= i < accounts.len() && found(totals, (#[trigger] accounts[i]).id) is Some ==> match (
            net_income_to(accounts, totals, i as nat),
            natural(totals, accounts[i]),
        ) {
            (Some(t), Some(n)) => {
                &&& accounts[i].account_type == AccountType::Revenue ==> exact_sum(t, n)
                &&& accounts[i].account_type == AccountType::Expense ==> exact_difference(t, n)
            },
            _ => true,
        }
}

/// Subtracting one side of an account from the other is exact.
proof fn lemma_side_worth(totals: Seq<Totals>, acc: Account)
    requires
        nets_exactly(debit_of(totals, acc.id), credit_of(totals, acc.id)),
    ensures
        natural(totals, acc) is Some,
        (natural(totals, acc)->0).1 <= max_places(),
        worth(natural(totals, acc)->0) == if normal_side(acc.account_type)
            == NormalBalance::Debit {
            net_worth(totals, acc.id)
        } else {
            -net_worth(totals, acc.id)
        },
{
    let d = debit_of(totals, acc.id);
    let c = credit_of(totals, acc.id);
}

proof fn lemma_section_worth(
    accounts: Seq<Account>,
    totals: Seq<Totals>,
    ty: AccountType,
    n: nat,
)
    requires
        balances_exactly(accounts, totals),
        section_exact(accounts, totals, ty),
        n <= accounts.len(),
    ensures
        section_total_to(accounts, totals, ty, n) is Some,
        (section_total_to(accounts, totals, ty, n)->0).1 <= max_places(),
        worth(section_total_to(accounts, totals, ty, n)->0) == if normal_side(ty)
            == NormalBalance::Debit {
            type_worth_to(accounts, totals, ty, n)
        } else {
            -type_worth_to(accounts, totals, ty, n)
        },
    decreases n,
{
    lemma_worth_sign(zero());
    if n > 0 {
        lemma_section_worth(accounts, totals, ty, (n - 1) as nat);
        let acc = accounts[n - 1];
        if acc.account_type == ty {
            lemma_side_worth(totals, acc);
        }
    }
}

proof fn lemma_income_worth(accounts: Seq<Account>, totals: Seq<Totals>, n: nat)
    requires
        balances_exactly(accounts, totals),
        income_exact(accounts, totals),
        n <= accounts.len(),
    ensures
        net_income_to(accounts, totals, n) is Some,
        (net_income_to(accounts, totals, n)->0).1 <= max_places(),
        worth(net_income_to(accounts, totals, n)->0) == -type_worth_to(
            accounts,
            totals,
            AccountType::Revenue,
            n,
        ) - type_worth_to(accounts, totals, AccountType::Expense, n),
    decreases n,
{
    lemma_worth_sign(zero());
    if n > 0 {
        lemma_income_worth(accounts, totals, (n - 1) as nat);
        let acc = accounts[n - 1];
        let rest = net_income_to(accounts, totals, (n - 1) as nat)->0;
        lemma_side_worth(totals, acc);
        if found(totals, acc.id) is None {
            assert(net_worth(totals, acc.id) == 0);
        } else if acc.account_type == AccountType::Revenue {
        } else if acc.account_type == AccountType::Expense {
        }
    }
}

/// Whether the two sides of the balance sheet are computed without rounding.
pub open spec fn sheet_exact(accounts: Seq<Account>, totals: Seq<Totals>) -> bool {
    let liabilities = section_total(accounts, totals, AccountType::Liability)->0;
    let equity = section_total(accounts, totals, AccountType::Equity)->0;
    &&& balances_exactly(accounts, totals)
    &&& section_exact(accounts, totals, AccountType::Asset)
    &&& section_exact(accounts, totals, AccountType::Liability)
    &&& section_exact(accounts, totals, AccountType::Equity)
    &&& income_exact(accounts, totals)
    &&& exact_sum(liabilities, equity)
    &&& exact_sum(plus(liabilities, equity)->0, net_income(accounts, totals)->0)
}

/// Whether the two columns are added up without rounding.
pub open spec fn foots_exactly(accounts: Seq<Account>, totals: Seq<Totals>) -> bool {
    forall|i: int|
        0 <= i < accounts.len() && found(totals, (#[trigger] accounts[i]).id) is Some ==> {
            &&& nets_exactly(
                debit_of(totals, accounts[i].id),
                credit_of(totals, accounts[i].id),
            )
            &&& match (footing_to(accounts, totals, i as nat), columns(totals, accounts[i])) {
                (Some((d, c)), Some((x, y))) => exact_sum(d, x) && exact_sum(c, y),
                _ => true,
            }
        }
}

proof fn lemma_footing_worth(accounts: Seq<Account>, totals: Seq<Totals>, n: nat)
    requires
        foots_exactly(accounts, totals),
        n <= accounts.len(),
    ensures
        footing_to(accounts, totals, n) is Some,
        ({
            let (d, c) = footing_to(accounts, totals, n)->0;
            &&& d.1 <= max_places()
            &&& c.1 <= max_places()
            &&& worth(d) - worth(c) == net_worth_to(accounts, totals, n)
        }),
    decreases n,
{
    lemma_worth_sign(zero());
    if n > 0 {
        lemma_footing_worth(accounts, totals, (n - 1) as nat);
        let acc = accounts[n - 1];
        let (d, c) = footing_to(accounts, totals, (n - 1) as nat)->0;
        if found(totals, acc.id) is Some {
            let debit = debit_of(totals, acc.id);
            let credit = credit_of(totals, acc.id);
            let net = minus(debit, credit)->0;
            lemma_worth_negated(net);
            let (x, y) = columns(totals, acc)->0;
        }
    }
}

/// The types partition the chart.
proof fn lemma_types_partition(accounts: Seq<Account>, totals: Seq<Totals>, n: nat)
    ensures
        net_worth_to(accounts, totals, n) == type_worth_to(
            accounts,
            totals,
            AccountType::Asset,
            n,
        ) + type_worth_to(accounts, totals, AccountType::Liability, n) + type_worth_to(
            accounts,
            totals,
            AccountType::Equity,
            n,
        ) + type_worth_to(accounts, totals, AccountType::Revenue, n) + type_worth_to(
            accounts,
            totals,
            AccountType::Expense,
            n,
        ),
    decreases n,
{
    if n > 0 {
        lemma_types_partition(accounts, totals, (n - 1) as nat);
    }
}

/// The totals add up a set of posted lines: each account's debits less its
/// credits are what the lines add to it.
pub open spec fn sums_up(accounts: Seq<Account>, totals: Seq<Totals>, lines: Seq<Posting>) -> bool {
    forall|i: int|
        0 <= i < accounts.len() ==> net_worth(totals, (#[trigger] accounts[i]).id) == effect(
            lines,
            accounts[i].id,
        )
}

/// What the debits of the first `n` lines are worth, less the credits.
pub open spec fn imbalance_to(lines: Seq<Posting>, n: nat) -> int
    decreases n,
{
    if n == 0 {
        0
    } else {
        imbalance_to(lines, (n - 1) as nat) + worth(lines[n - 1].debit@) - worth(
            lines[n - 1].credit@,
        )
    }
}

/// Every line is posted to an account of the chart, no account stands in the
/// chart twice, and debits and credits are worth the same.
pub open spec fn balanced_books(accounts: Seq<Account>, lines: Seq<Posting>) -> bool {
    &&& forall|i: int, j: int|
        0 <= i < j < accounts.len() ==> (#[trigger] accounts[i]).id != (#[trigger] accounts[j]).id
    &&& forall|k: int|
        0 <= k < lines.len() ==> exists|i: int|
            0 <= i < accounts.len() && (#[trigger] accounts[i]).id == (#[trigger] lines[k]).account_id
    &&& imbalance_to(lines, lines.len()) == 0
}

/// What the first `m` lines add to the first `n` accounts.
spec fn spread(accounts: Seq<Account>, lines: Seq<Posting>, n: nat, m: nat) -> int
    decreases n,
{
    if n == 0 {
        0
    } else {
        spread(accounts, lines, (n - 1) as nat, m) + effect_to(lines, accounts[n - 1].id, m)
    }
}

proof fn lemma_spread_line(
    accounts: Seq<Account>,
    lines: Seq<Posting>,
    n: nat,
    m: nat,
    at: int,
)
    requires
        0 < m <= lines.len(),
        n <= accounts.len(),
        0 <= at < accounts.len(),
        accounts[at].id == lines[m - 1].account_id,
        forall|i: int, j: int|
            0 <= i < j < accounts.len() ==> (#[trigger] accounts[i]).id != (#[trigger] accounts[j]).id,
    ensures
        spread(accounts, lines, n, m) == spread(accounts, lines, n, (m - 1) as nat) + if at < n {
            worth(lines[m - 1].debit@) - worth(lines[m - 1].credit@)
        } else {
            0
        },
    decreases n,
{
    if n > 0 {
        lemma_spread_line(accounts, lines, (n - 1) as nat, m, at);
        assert(accounts[n - 1].id == accounts[at].id <==> n - 1 == at);
    }
}

proof fn lemma_spread(accounts: Seq<Account>, lines: Seq<Posting>, m: nat)
    requires
        balanced_books(accounts, lines),
        m <= lines.len(),
    ensures
        spread(accounts, lines, accounts.len(), m) == imbalance_to(lines, m),
    decreases m,
{
    if m == 0 {
        lemma_spread_empty(accounts, lines, accounts.len());
    } else {
        lemma_spread(accounts, lines, (m - 1) as nat);
        let line = lines[m - 1];
        let at = choose|i: int|
            0 <= i < accounts.len() && (#[trigger] accounts[i]).id == line.account_id;
        lemma_spread_line(accounts, lines, accounts.len(), m, at);
    }
}

proof fn lemma_spread_empty(accounts: Seq<Account>, lines: Seq<Posting>, n: nat)
    ensures
        spread(accounts, lines, n, 0) == 0,
    decreases n,
{
    if n > 0 {
        lemma_spread_empty(accounts, lines, (n - 1) as nat);
    }
}

proof fn lemma_books_net(
    accounts: Seq<Account>,
    totals: Seq<Totals>,
    lines: Seq<Posting>,
    n: nat,
)
    requires
        sums_up(accounts, totals, lines),
        n <= accounts.len(),
    ensures
        net_worth_to(accounts, totals, n) == spread(accounts, lines, n, lines.len()),
    decreases n,
{
    if n > 0 {
        lemma_books_net(accounts, totals, lines, (n - 1) as nat);
        assert(accounts[n - 1] == accounts[n - 1]);
    }
}

/// An active account without postings stands in the trial balance with zeros,
/// in one row where no other account has its identifier.
pub proof fn unused_accounts_show_zeros(
    tb: TrialBalance,
    accounts: Seq<Account>,
    totals: Seq<Totals>,
    k: int,
)
    requires
        is_trial_balance(tb, accounts, totals),
        0 <= k < accounts.len(),
        accounts[k].is_active,
        found(totals, accounts[k].id) is None,
        keys_differ(accounts, |a: Account| a.id),
    ensures
        exists|i: int|
            0 <= i < tb.rows@.len() && (#[trigger] tb.rows@[i]).account_id == accounts[k].id
                && tb.rows@[i].debit@.0 == 0 && tb.rows@[i].credit@.0 == 0 && forall|j: int|
                0 <= j < tb.rows@.len() && j != i ==> (#[trigger] tb.rows@[j]).account_id
                    != accounts[k].id,
{
    let p = stands(totals);
    let shown = kept(accounts, p);
    lemma_kept_places(accounts, p, accounts.len());
    let at = kept_to(accounts, p, k as nat).len();
    lemma_kept_at(accounts, p, k, accounts.len());
    assert(is_trial_row(tb.rows@[at as int], shown[at as int], totals));
    assert forall|j: int| 0 <= j < tb.rows@.len() && j != at implies (#[trigger] tb.rows@[j]).account_id
        != accounts[k].id by {
        assert(is_trial_row(tb.rows@[j], shown[j], totals));
        let i = choose|i: int| 0 <= i < accounts.len() && #[trigger] accounts[i] == shown[j]
            && kept_to(accounts, p, i as nat).len() == j && p(accounts[i]);
        assert(i != k);
    }
}

/// The two columns of a trial balance foot to the same total.
pub proof fn trial_balance_foots(
    tb: TrialBalance,
    accounts: Seq<Account>,
    totals: Seq<Totals>,
    lines: Seq<Posting>,
)
    requires
        is_trial_balance(tb, accounts, totals),
        balanced_books(accounts, lines),
        sums_up(accounts, totals, lines),
        foots_exactly(accounts, totals),
    ensures
        worth(tb.total_debit@) == worth(tb.total_credit@),
{
    lemma_footing_worth(accounts, totals, accounts.len());
    lemma_books_net(accounts, totals, lines, accounts.len());
    lemma_spread(accounts, lines, lines.len());
}

/// The balance sheet balances: assets are worth what liabilities, equity and
/// earnings are worth together.
pub proof fn balance_sheet_balances(
    bs: BalanceSheet,
    accounts: Seq<Account>,
    totals: Seq<Totals>,
    prior: Option<Seq<Totals>>,
    lines: Seq<Posting>,
)
    requires
        is_balance_sheet(bs, accounts, totals, prior),
        balanced_books(accounts, lines),
        sums_up(accounts, totals, lines),
        sheet_exact(accounts, totals),
    ensures
        bs.balanced,
{
    let n = accounts.len();
    lemma_books_net(accounts, totals, lines, n);
    lemma_spread(accounts, lines, lines.len());
    lemma_types_partition(accounts, totals, n);
    lemma_section_worth(accounts, totals, AccountType::Asset, n);
    lemma_section_worth(accounts, totals, AccountType::Liability, n);
    lemma_section_worth(accounts, totals, AccountType::Equity, n);
    lemma_income_worth(accounts, totals, n);
}

/// The income statement's net income is the one the balance sheet folds into
/// equity, where both read the same totals.
pub proof fn statements_agree(s: IncomeStatement, accounts: Seq<Account>, totals: Seq<Totals>)
    requires
        is_income_statement(s, accounts, totals),
        balances_exactly(accounts, totals),
        section_exact(accounts, totals, AccountType::Revenue),
        section_exact(accounts, totals, AccountType::Expense),
        income_exact(accounts, totals),
        exact_difference(s.revenue.total@, s.expenses.total@),
    ensures
        net_income(accounts, totals) is Some,
        worth(s.net_income@) == worth(net_income(accounts, totals)->0),
{
    let n = accounts.len();
    lemma_section_worth(accounts, totals, AccountType::Revenue, n);
    lemma_section_worth(accounts, totals, AccountType::Expense, n);
    lemma_income_worth(accounts, totals, n);
}

/// Prior and current earnings together are the whole net income.
pub proof fn earnings_add_up(
    bs: BalanceSheet,
    accounts: Seq<Account>,
    totals: Seq<Totals>,
    prior: Option<Seq<Totals>>,
)
    requires
        is_balance_sheet(bs, accounts, totals, prior),
        balances_exactly(accounts, totals),
        income_exact(accounts, totals),
        prior matches Some(before) ==> balances_exactly(accounts, before) && income_exact(
            accounts,
            before,
        ),
        exact_difference(net_income(accounts, totals)->0, bs.prior_earnings@),
    ensures
        worth(bs.prior_earnings@) + worth(bs.current_earnings@) == worth(
            net_income(accounts, totals)->0,
        ),
{
    let n = accounts.len();
    lemma_income_worth(accounts, totals, n);
    lemma_worth_sign(zero());
    if let Some(before) = prior {
        lemma_income_worth(accounts, before, n);
    }
}

proof fn lemma_section_lines(
    s: StatementSection,
    title: Seq<char>,
    accounts: Seq<Account>,
    totals: Seq<Totals>,
    ty: AccountType,
    n: nat,
)
    requires
        is_section(s, title, accounts, totals, ty),
        balances_exactly(accounts, totals),
        section_exact(accounts, totals, ty),
        n <= accounts.len(),
        section_total_to(accounts, totals, ty, n) is Some,
        section_accounts_to(accounts, totals, ty, n).len() <= s.lines@.len(),
        forall|i: int|
            0 <= i < section_accounts_to(accounts, totals, ty, n).len() ==> is_statement_line(
                #[trigger] s.lines@[i],
                section_accounts_to(accounts, totals, ty, n)[i],
                totals,
            ),
    ensures
        worth(section_total_to(accounts, totals, ty, n)->0) == worth_to(
            line_amounts(s.lines@),
            section_accounts_to(accounts, totals, ty, n).len(),
        ),
    decreases n,
{
    lemma_worth_sign(zero());
    if n > 0 {
        let acc = accounts[n - 1];
        let rest = section_accounts_to(accounts, totals, ty, (n - 1) as nat);
        let all = section_accounts_to(accounts, totals, ty, n);
        if section_total_to(accounts, totals, ty, (n - 1) as nat) is None {
            lemma_section_none(accounts, totals, ty, (n - 1) as nat, n);
        }
        assert forall|i: int| 0 <= i < rest.len() implies is_statement_line(
            #[trigger] s.lines@[i],
            rest[i],
            totals,
        ) by {
            assert(rest[i] == all[i]);
        }
        lemma_section_lines(s, title, accounts, totals, ty, (n - 1) as nat);
        if acc.account_type == ty {
            let t = section_total_to(accounts, totals, ty, (n - 1) as nat)->0;
            let x = natural(totals, acc)->0;
            lemma_section_worth(accounts, totals, ty, (n - 1) as nat);
            lemma_side_worth(totals, acc);
            lemma_worth_sign(x);
            if has_balance(totals, acc) {
                assert(all[rest.len() as int] == acc);
                assert(is_statement_line(s.lines@[rest.len() as int], acc, totals));
                assert(line_amounts(s.lines@)[rest.len() as int] == x);
            }
        }
    }
}

proof fn lemma_section_sum(
    s: StatementSection,
    accounts: Seq<Account>,
    totals: Seq<Totals>,
    ty: AccountType,
    n: nat,
)
    requires
        n <= accounts.len(),
        section_total_to(accounts, totals, ty, n) is Some,
        section_accounts_to(accounts, totals, ty, n).len() <= s.lines@.len(),
        forall|i: int|
            0 <= i < section_accounts_to(accounts, totals, ty, n).len() ==> is_statement_line(
                #[trigger] s.lines@[i],
                section_accounts_to(accounts, totals, ty, n)[i],
                totals,
            ),
    ensures
        total_to(
            line_amounts(s.lines@),
            section_accounts_to(accounts, totals, ty, n).len(),
        ) matches Some(t) && agree(t, section_total_to(accounts, totals, ty, n)->0),
    decreases n,
{
    if n > 0 {
        let acc = accounts[n - 1];
        let rest = section_accounts_to(accounts, totals, ty, (n - 1) as nat);
        let all = section_accounts_to(accounts, totals, ty, n);
        if section_total_to(accounts, totals, ty, (n - 1) as nat) is None {
            lemma_section_none(accounts, totals, ty, (n - 1) as nat, n);
        }
        assert forall|i: int| 0 <= i < rest.len() implies is_statement_line(
            #[trigger] s.lines@[i],
            rest[i],
            totals,
        ) by {
            assert(rest[i] == all[i]);
        }
        lemma_section_sum(s, accounts, totals, ty, (n - 1) as nat);
        if acc.account_type == ty && has_balance(totals, acc) {
            assert(all[rest.len() as int] == acc);
            assert(is_statement_line(s.lines@[rest.len() as int], acc, totals));
            assert(line_amounts(s.lines@)[rest.len() as int] == natural(totals, acc)->0);
        }
    }
}

/// A section's total is the sum of its lines, added up one after the other: what
/// is not listed adds nothing.
pub proof fn totals_are_the_sum_of_their_lines(
    s: StatementSection,
    title: Seq<char>,
    accounts: Seq<Account>,
    totals: Seq<Totals>,
    ty: AccountType,
)
    requires
        is_section(s, title, accounts, totals, ty),
    ensures
        adds_up(s),
{
    lemma_section_sum(s, accounts, totals, ty, accounts.len());
}

/// A section's total is worth exactly what its lines are worth together, wherever
/// no sum is rounded.
pub proof fn sections_add_up(
    s: StatementSection,
    title: Seq<char>,
    accounts: Seq<Account>,
    totals: Seq<Totals>,
    ty: AccountType,
)
    requires
        is_section(s, title, accounts, totals, ty),
        balances_exactly(accounts, totals),
        section_exact(accounts, totals, ty),
    ensures
        worth(s.total@) == worth_of(line_amounts(s.lines@)),
{
    lemma_section_lines(s, title, accounts, totals, ty, accounts.len());
}

proof fn lemma_cutoff(years: Seq<Year>, d: Day, k: int, from: int)
    requires
        is_date(d),
        forall|i: int|
            0 <= i < years.len() ==> is_date((#[trigger] years[i]).start_date@) && is_date(
                years[i].end_date@,
            ),
        0 <= from,
        forall|i: int|
            0 <= i < years.len() && i != k ==> !between(
                d,
                (#[trigger] years[i]).start_date@,
                years[i].end_date@,
            ),
        0 <= k < years.len() ==> from <= k && between(d, years[k].start_date@, years[k].end_date@),
    ensures
        cutoff_from(years, d, from) == if 0 <= k < years.len() && years[k].start_date@ != (
        -262143int, 1int, 1int) {
            Some(day_before(years[k].start_date@))
        } else {
            None
        },
    decreases years.len() - from,
{
    if from < years.len() {
        let y = years[from];
        lemma_day_number_orders(d, y.start_date@);
        lemma_day_number_orders(y.start_date@, d);
        lemma_day_number_orders(d, y.end_date@);
        lemma_day_number_orders(y.end_date@, d);
        if from != k {
            lemma_cutoff(years, d, k, from + 1);
        }
    }
}

/// What was earned before the fiscal year of a day is retained: where one year holds the
/// day, and no other does, retained earnings end on the day before that year begins;
/// without a year there is nothing to split on.
pub proof fn earnings_are_split_at_the_year(years: Seq<Year>, d: Day, k: int)
    requires
        is_date(d),
        forall|i: int|
            0 <= i < years.len() ==> is_date((#[trigger] years[i]).start_date@) && is_date(
                years[i].end_date@,
            ),
        forall|i: int|
            0 <= i < years.len() && i != k ==> !between(
                d,
                (#[trigger] years[i]).start_date@,
                years[i].end_date@,
            ),
        0 <= k < years.len() ==> between(d, years[k].start_date@, years[k].end_date@)
            && years[k].start_date@ != (-262143int, 1int, 1int),
    ensures
        0 <= k < years.len() ==> (cutoff_from(years, d, 0) matches Some(c) && day_number(c) + 1
            == day_number(years[k].start_date@)),
        !(0 <= k < years.len()) ==> cutoff_from(years, d, 0) is None,
{
    lemma_cutoff(years, d, k, 0);
    if 0 <= k < years.len() {
        lemma_day_before(years[k].start_date@);
    }
}

/// What an account holds grows on its own side: an asset or an expense by what is
/// debited, a liability, equity or revenue by what is credited. The trial balance
/// puts a net debit in its first column and a net credit in its second, each as a
/// positive amount, whatever the account.
pub proof fn balances_stand_on_their_side(totals: Seq<Totals>, acc: Account)
    ensures
        ({
            let debit = debit_of(totals, acc.id);
            let credit = credit_of(totals, acc.id);
            &&& acc.account_type == AccountType::Asset || acc.account_type == AccountType::Expense
                ==> natural(totals, acc) == minus(debit, credit)
            &&& acc.account_type == AccountType::Liability || acc.account_type
                == AccountType::Equity || acc.account_type == AccountType::Revenue ==> natural(
                totals,
                acc,
            ) == minus(credit, debit)
            &&& columns(totals, acc) is Some <==> minus(debit, credit) is Some
            &&& columns(totals, acc) matches Some(c) ==> {
                &&& c.0.0 >= 0 && c.1.0 >= 0
                &&& c.0.0 == 0 || c.1.0 == 0
                &&& worth(c.0) - worth(c.1) == worth(minus(debit, credit)->0)
            }
        }),
{
    lemma_worth_sign(zero());
    if let Some(net) = minus(debit_of(totals, acc.id), credit_of(totals, acc.id)) {
        lemma_worth_negated(net);
    }
}

} // verus!
