//! What the accounts that carry certain roles hold together.

use super::account::{Model as Account, NormalBalance};
use super::ledger::{amounts, credit_of, debit_of, Totals};
use crate::decimal::{minus, zero, Decimal, Num};
use crate::error::{in_range, refusal, Error, Refusal};
use crate::sums::sum_of;
use crate::text::{contains_text, opt_text, texts};
use vstd::prelude::*;

verus! {

/// Whether an account carries one of the roles.
pub open spec fn carries(acc: Account, roles: Seq<Seq<char>>) -> bool {
    match opt_text(acc.system_key) {
        Some(key) => roles.contains(key),
        None => false,
    }
}

/// What an account holds, seen from a side.
pub open spec fn balance_on(totals: Seq<Totals>, id: u128, side: NormalBalance) -> Option<Num> {
    match side {
        NormalBalance::Debit => minus(debit_of(totals, id), credit_of(totals, id)),
        NormalBalance::Credit => minus(credit_of(totals, id), debit_of(totals, id)),
    }
}

/// What those of the first `n` accounts that carry one of the roles hold
/// together.
pub open spec fn held_to(
    accounts: Seq<Account>,
    totals: Seq<Totals>,
    roles: Seq<Seq<char>>,
    side: NormalBalance,
    n: nat,
) -> Option<Num>
    decreases n,
{
    if n == 0 {
        Some(zero())
    } else {
        let acc = accounts[n - 1];
        let rest = held_to(accounts, totals, roles, side, (n - 1) as nat);
        if carries(acc, roles) {
            sum_of(rest, balance_on(totals, acc.id, side))
        } else {
            rest
        }
    }
}

/// What the accounts that carry one of the roles hold together.
pub open spec fn held(
    accounts: Seq<Account>,
    totals: Seq<Totals>,
    roles: Seq<Seq<char>>,
    side: NormalBalance,
) -> Option<Num> {
    held_to(accounts, totals, roles, side, accounts.len())
}

proof fn lemma_held_stops(
    accounts: Seq<Account>,
    totals: Seq<Totals>,
    roles: Seq<Seq<char>>,
    side: NormalBalance,
    i: nat,
    n: nat,
)
    requires
        i <= n,
        held_to(accounts, totals, roles, side, i) is None,
    ensures
        held_to(accounts, totals, roles, side, n) is None,
    decreases n,
{
    if i < n {
        lemma_held_stops(accounts, totals, roles, side, i, (n - 1) as nat);
    }
}

fn is_carrier(acc: &Account, roles: &Vec<String>) -> (r: bool)
    ensures
        r == carries(*acc, texts(roles@)),
{
    match &acc.system_key {
        None => false,
        Some(key) => contains_text(roles, key.as_str()),
    }
}

/// What the accounts that carry one of the roles hold together, seen from a
/// side.
pub fn role_balance(
    accounts: &Vec<Account>,
    totals: &Vec<Totals>,
    roles: &Vec<String>,
    side: NormalBalance,
) -> (r: Result<Decimal, Error>)
    ensures
        match held(accounts@, totals@, texts(roles@), side) {
            Some(n) => r is Ok && r->Ok_0@ == n,
            None => refusal(r) == Some(Refusal::Overflow),
        },
{
    let ghost names = texts(roles@);
    let mut sum = Decimal::zero();
    let mut i: usize = 0;
    while i < accounts.len()
        invariant
            i <= accounts.len(),
            names == texts(roles@),
            held_to(accounts@, totals@, names, side, i as nat) == Some(sum@),
        decreases accounts.len() - i,
    {
        proof {
            if held_to(accounts@, totals@, names, side, (i + 1) as nat) is None {
                lemma_held_stops(
                    accounts@,
                    totals@,
                    names,
                    side,
                    (i + 1) as nat,
                    accounts@.len(),
                );
            }
        }
        if is_carrier(&accounts[i], roles) {
            let (debit, credit) = amounts(totals, accounts[i].id);
            let balance = match side {
                NormalBalance::Debit => in_range(debit.checked_sub(credit))?,
                NormalBalance::Credit => in_range(credit.checked_sub(debit))?,
            };
            sum = in_range(sum.checked_add(balance))?;
        }
        i = i + 1;
    }
    Ok(sum)
}

proof fn lemma_held_prefix(
    a: Seq<Account>,
    b: Seq<Account>,
    totals: Seq<Totals>,
    roles: Seq<Seq<char>>,
    side: NormalBalance,
    n: nat,
)
    requires
        n <= a.len(),
        n <= b.len(),
        forall|i: int| 0 <= i < n ==> a[i] == b[i],
    ensures
        held_to(a, totals, roles, side, n) == held_to(b, totals, roles, side, n),
    decreases n,
{
    if n > 0 {
        lemma_held_prefix(a, b, totals, roles, side, (n - 1) as nat);
    }
}

/// Roles hold what their accounts hold: an account that carries one of them adds what it
/// was debited with less what it was credited with, or the other way round where the
/// balance is seen from the credit side; an account that carries none adds nothing.
pub proof fn roles_hold_what_their_accounts_hold(
    accounts: Seq<Account>,
    acc: Account,
    totals: Seq<Totals>,
    roles: Seq<Seq<char>>,
    side: NormalBalance,
)
    ensures
        ({
            let debit = debit_of(totals, acc.id);
            let credit = credit_of(totals, acc.id);
            let before = held(accounts, totals, roles, side);
            let after = held(accounts.push(acc), totals, roles, side);
            &&& held(Seq::<Account>::empty(), totals, roles, side) == Some(zero())
            &&& acc.system_key is None ==> after == before
            &&& acc.system_key matches Some(key) ==> {
                &&& !roles.contains(key@) ==> after == before
                &&& roles.contains(key@) && side == NormalBalance::Debit ==> after == sum_of(
                    before,
                    minus(debit, credit),
                )
                &&& roles.contains(key@) && side == NormalBalance::Credit ==> after == sum_of(
                    before,
                    minus(credit, debit),
                )
            }
        }),
{
    lemma_held_prefix(accounts.push(acc), accounts, totals, roles, side, accounts.len());
}

} // verus!
