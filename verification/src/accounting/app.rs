//! Accounting as an app: its number series and its seeding.

use crate::series::{all_numbered, seed_currency, seeding_currency, Numbered, Series};
use crate::text::opt_text;
use vstd::prelude::*;

verus! {

/// Posted journal entries.
pub const JOURNAL_SERIES: &'static str = "accounting.journal";

/// Expense vouchers.
pub const EXPENSE_SERIES: &'static str = "accounting.expense";

/// Entries that the system books for documents of other modules.
pub const SYSTEM_SERIES: &'static str = "accounting.system";

/// The currency that a tenant without one is seeded in.
pub const FALLBACK_CURRENCY: &'static str = "KES";

/// The number series of accounting.
pub open spec fn numbered() -> Seq<Numbered> {
    seq![
        (JOURNAL_SERIES@, "Journal Entry"@, "JV-{YYYY}-{SEQ:5}"@),
        (EXPENSE_SERIES@, "Expense Voucher"@, "PV-{YYYY}-{SEQ:5}"@),
        (SYSTEM_SERIES@, "System Journal Entry"@, "SYS-{YYYY}-{SEQ:5}"@),
    ]
}

#[derive(Clone, Copy, Debug)]
pub struct AccountingApp;

impl AccountingApp {
    pub fn name(&self) -> (r: &'static str)
        ensures
            r@ == "accounting"@,
    {
        "accounting"
    }

    /// The number series that documents are numbered by.
    pub fn series(&self) -> (r: Vec<Series>)
        ensures
            all_numbered(r@) == numbered(),
    {
        let list = vec![
            Series::new(JOURNAL_SERIES, "Journal Entry", "JV-{YYYY}-{SEQ:5}"),
            Series::new(EXPENSE_SERIES, "Expense Voucher", "PV-{YYYY}-{SEQ:5}"),
            Series::new(SYSTEM_SERIES, "System Journal Entry", "SYS-{YYYY}-{SEQ:5}"),
        ];
        assert(all_numbered(list@) =~= numbered());
        list
    }

    /// The currency that a tenant is seeded in.
    pub fn currency(&self, own: &Option<String>) -> (r: String)
        ensures
            r@ == seeding_currency(opt_text(*own), FALLBACK_CURRENCY@),
    {
        seed_currency(own, FALLBACK_CURRENCY)
    }
}

} // verus!
