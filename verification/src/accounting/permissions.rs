//! The permissions of accounting.

use crate::permission::{grants, Grant, Permission};
use vstd::prelude::*;

verus! {

pub const ACCOUNTING: &'static str = "Pages.Accounting";

pub const ACCOUNTS: &'static str = "Pages.Accounting.Accounts";

pub const ACCOUNTS_VIEW: &'static str = "Pages.Accounting.Accounts.View";

pub const ACCOUNTS_CREATE: &'static str = "Pages.Accounting.Accounts.Create";

pub const ACCOUNTS_EDIT: &'static str = "Pages.Accounting.Accounts.Edit";

pub const ACCOUNTS_DELETE: &'static str = "Pages.Accounting.Accounts.Delete";

pub const FISCAL_YEARS: &'static str = "Pages.Accounting.FiscalYears";

pub const FISCAL_YEARS_VIEW: &'static str = "Pages.Accounting.FiscalYears.View";

pub const FISCAL_YEARS_MANAGE: &'static str = "Pages.Accounting.FiscalYears.Manage";

pub const JOURNAL: &'static str = "Pages.Accounting.Journal";

pub const JOURNAL_VIEW: &'static str = "Pages.Accounting.Journal.View";

pub const JOURNAL_CREATE: &'static str = "Pages.Accounting.Journal.Create";

pub const JOURNAL_POST: &'static str = "Pages.Accounting.Journal.Post";

pub const JOURNAL_REVERSE: &'static str = "Pages.Accounting.Journal.Reverse";

pub const EXPENSES: &'static str = "Pages.Accounting.Expenses";

pub const EXPENSES_VIEW: &'static str = "Pages.Accounting.Expenses.View";

pub const EXPENSES_RECORD: &'static str = "Pages.Accounting.Expenses.Record";

pub const TAX: &'static str = "Pages.Accounting.Tax";

pub const TAX_VIEW: &'static str = "Pages.Accounting.Tax.View";

pub const TAX_CREATE: &'static str = "Pages.Accounting.Tax.Create";

pub const TAX_EDIT: &'static str = "Pages.Accounting.Tax.Edit";

pub const TAX_DELETE: &'static str = "Pages.Accounting.Tax.Delete";

pub const REPORTS: &'static str = "Pages.Accounting.Reports";

pub const REPORTS_VIEW: &'static str = "Pages.Accounting.Reports.View";

/// What can be granted in accounting.
pub open spec fn permissions() -> Seq<Grant> {
    seq![
        (ACCOUNTING@, "Accounting"@, None),
        (ACCOUNTS@, "Chart of accounts"@, Some(ACCOUNTING@)),
        (ACCOUNTS_VIEW@, "View accounts"@, Some(ACCOUNTS@)),
        (ACCOUNTS_CREATE@, "Create accounts"@, Some(ACCOUNTS@)),
        (ACCOUNTS_EDIT@, "Edit accounts"@, Some(ACCOUNTS@)),
        (ACCOUNTS_DELETE@, "Delete accounts"@, Some(ACCOUNTS@)),
        (FISCAL_YEARS@, "Fiscal years"@, Some(ACCOUNTING@)),
        (FISCAL_YEARS_VIEW@, "View fiscal years"@, Some(FISCAL_YEARS@)),
        (FISCAL_YEARS_MANAGE@, "Manage fiscal years & periods"@, Some(FISCAL_YEARS@)),
        (JOURNAL@, "Journal"@, Some(ACCOUNTING@)),
        (JOURNAL_VIEW@, "View journal entries"@, Some(JOURNAL@)),
        (JOURNAL_CREATE@, "Create journal entries"@, Some(JOURNAL@)),
        (JOURNAL_POST@, "Post journal entries"@, Some(JOURNAL@)),
        (JOURNAL_REVERSE@, "Reverse journal entries"@, Some(JOURNAL@)),
        (EXPENSES@, "Expenses"@, Some(ACCOUNTING@)),
        (EXPENSES_VIEW@, "View expenses"@, Some(EXPENSES@)),
        (EXPENSES_RECORD@, "Record expenses"@, Some(EXPENSES@)),
        (TAX@, "Tax"@, Some(ACCOUNTING@)),
        (TAX_VIEW@, "View tax codes"@, Some(TAX@)),
        (TAX_CREATE@, "Create tax codes"@, Some(TAX@)),
        (TAX_EDIT@, "Edit tax codes"@, Some(TAX@)),
        (TAX_DELETE@, "Delete tax codes"@, Some(TAX@)),
        (REPORTS@, "Accounting reports"@, Some(ACCOUNTING@)),
        (REPORTS_VIEW@, "View accounting reports"@, Some(REPORTS@)),
    ]
}

/// The permissions, each after the one it stands under.
pub fn tree() -> (r: Vec<Permission>)
    ensures
        grants(r@) == permissions(),
{
    let list = vec![
        Permission::root(ACCOUNTING, "Accounting"),
        Permission::under(ACCOUNTING, ACCOUNTS, "Chart of accounts"),
        Permission::under(ACCOUNTS, ACCOUNTS_VIEW, "View accounts"),
        Permission::under(ACCOUNTS, ACCOUNTS_CREATE, "Create accounts"),
        Permission::under(ACCOUNTS, ACCOUNTS_EDIT, "Edit accounts"),
        Permission::under(ACCOUNTS, ACCOUNTS_DELETE, "Delete accounts"),
        Permission::under(ACCOUNTING, FISCAL_YEARS, "Fiscal years"),
        Permission::under(FISCAL_YEARS, FISCAL_YEARS_VIEW, "View fiscal years"),
        Permission::under(FISCAL_YEARS, FISCAL_YEARS_MANAGE, "Manage fiscal years & periods"),
        Permission::under(ACCOUNTING, JOURNAL, "Journal"),
        Permission::under(JOURNAL, JOURNAL_VIEW, "View journal entries"),
        Permission::under(JOURNAL, JOURNAL_CREATE, "Create journal entries"),
        Permission::under(JOURNAL, JOURNAL_POST, "Post journal entries"),
        Permission::under(JOURNAL, JOURNAL_REVERSE, "Reverse journal entries"),
        Permission::under(ACCOUNTING, EXPENSES, "Expenses"),
        Permission::under(EXPENSES, EXPENSES_VIEW, "View expenses"),
        Permission::under(EXPENSES, EXPENSES_RECORD, "Record expenses"),
        Permission::under(ACCOUNTING, TAX, "Tax"),
        Permission::under(TAX, TAX_VIEW, "View tax codes"),
        Permission::under(TAX, TAX_CREATE, "Create tax codes"),
        Permission::under(TAX, TAX_EDIT, "Edit tax codes"),
        Permission::under(TAX, TAX_DELETE, "Delete tax codes"),
        Permission::under(ACCOUNTING, REPORTS, "Accounting reports"),
        Permission::under(REPORTS, REPORTS_VIEW, "View accounting reports"),
    ];
    assert(grants(list@) =~= permissions());
    list
}

} // verus!
