//! The posting port between the modules that have something to book and the
//! ledger: a request names account roles, not accounts.

use crate::date::Date;
use crate::decimal::{zero, Decimal};
use vstd::prelude::*;

verus! {

/// One line of a posting request: an amount on one side of the account that
/// carries the role.
#[derive(Debug)]
pub struct GlLine {
    pub account_role: String,
    pub debit: Decimal,
    pub credit: Decimal,
    pub memo: Option<String>,
}

impl GlLine {
    pub fn debit(account_role: String, amount: Decimal, memo: Option<String>) -> (r: GlLine)
        ensures
            r.account_role == account_role,
            r.debit == amount,
            r.credit@ == zero(),
            r.memo == memo,
    {
        GlLine { account_role, debit: amount, credit: Decimal::zero(), memo }
    }

    pub fn credit(account_role: String, amount: Decimal, memo: Option<String>) -> (r: GlLine)
        ensures
            r.account_role == account_role,
            r.debit@ == zero(),
            r.credit == amount,
            r.memo == memo,
    {
        GlLine { account_role, debit: Decimal::zero(), credit: amount, memo }
    }
}

/// A request to book an entry. `source` names the document and the act, and
/// is booked at most once.
#[derive(Debug)]
pub struct GlPostingRequested {
    pub tenant_id: Option<u128>,
    pub source: String,
    pub entry_date: Date,
    pub memo: String,
    /// Nothing where the publisher leaves it to the chart of accounts.
    pub currency: Option<String>,
    pub lines: Vec<GlLine>,
}

} // verus!
