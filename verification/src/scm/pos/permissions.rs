//! The permissions of the point of sale.

use crate::permission::{grants, Grant, Permission};
use vstd::prelude::*;

verus! {

pub const POS: &'static str = "Pages.Pos";

pub const REGISTERS: &'static str = "Pages.Pos.Registers";

pub const REGISTERS_VIEW: &'static str = "Pages.Pos.Registers.View";

pub const REGISTERS_MANAGE: &'static str = "Pages.Pos.Registers.Manage";

pub const SESSIONS: &'static str = "Pages.Pos.Sessions";

pub const SESSIONS_OPEN: &'static str = "Pages.Pos.Sessions.Open";

pub const SESSIONS_CLOSE: &'static str = "Pages.Pos.Sessions.Close";

pub const SESSIONS_PAID_IN_OUT: &'static str = "Pages.Pos.Sessions.PaidInOut";

pub const SELL: &'static str = "Pages.Pos.Sell";

pub const REFUND: &'static str = "Pages.Pos.Refund";

/// The PIN-gated acts: voids, discounts, price overrides.
pub const OVERRIDE: &'static str = "Pages.Pos.Override";

pub const REPORTS: &'static str = "Pages.Pos.Reports";

pub const REPORTS_VIEW: &'static str = "Pages.Pos.Reports.View";

/// What can be granted at the point of sale.
pub open spec fn permissions() -> Seq<Grant> {
    seq![
        (POS@, "Point of sale"@, None),
        (REGISTERS@, "Registers"@, Some(POS@)),
        (REGISTERS_VIEW@, "View registers"@, Some(REGISTERS@)),
        (REGISTERS_MANAGE@, "Manage registers"@, Some(REGISTERS@)),
        (SESSIONS@, "Sessions"@, Some(POS@)),
        (SESSIONS_OPEN@, "Open sessions"@, Some(SESSIONS@)),
        (SESSIONS_CLOSE@, "Close sessions"@, Some(SESSIONS@)),
        (SESSIONS_PAID_IN_OUT@, "Record drawer paid in / out"@, Some(SESSIONS@)),
        (SELL@, "Sell at the till"@, Some(POS@)),
        (REFUND@, "Refund against a receipt"@, Some(POS@)),
        (OVERRIDE@, "Override (voids, discounts, prices)"@, Some(POS@)),
        (REPORTS@, "POS reports"@, Some(POS@)),
        (REPORTS_VIEW@, "View POS reports"@, Some(REPORTS@)),
    ]
}

/// The permissions, each after the one it stands under.
pub fn tree() -> (r: Vec<Permission>)
    ensures
        grants(r@) == permissions(),
{
    let list = vec![
        Permission::root(POS, "Point of sale"),
        Permission::under(POS, REGISTERS, "Registers"),
        Permission::under(REGISTERS, REGISTERS_VIEW, "View registers"),
        Permission::under(REGISTERS, REGISTERS_MANAGE, "Manage registers"),
        Permission::under(POS, SESSIONS, "Sessions"),
        Permission::under(SESSIONS, SESSIONS_OPEN, "Open sessions"),
        Permission::under(SESSIONS, SESSIONS_CLOSE, "Close sessions"),
        Permission::under(SESSIONS, SESSIONS_PAID_IN_OUT, "Record drawer paid in / out"),
        Permission::under(POS, SELL, "Sell at the till"),
        Permission::under(POS, REFUND, "Refund against a receipt"),
        Permission::under(POS, OVERRIDE, "Override (voids, discounts, prices)"),
        Permission::under(POS, REPORTS, "POS reports"),
        Permission::under(REPORTS, REPORTS_VIEW, "View POS reports"),
    ];
    assert(grants(list@) =~= permissions());
    list
}

} // verus!
