//! The tiles that accounting declares.

use super::permissions;
use crate::dashboard::{all_declared, Declared, WidgetDefinition, WidgetKind};
use vstd::prelude::*;

verus! {

/// What the declared tiles say.
pub open spec fn declarations() -> Seq<Declared> {
    seq![
        Declared {
            name: "accounting-cash-position"@,
            dashboard: "accounting"@,
            title: "Cash position"@,
            description: "The combined balance of the cash and bank accounts."@,
            kind: WidgetKind::Stat,
            permission: permissions::REPORTS_VIEW@,
            default_position: Some(1u8),
        },
        Declared {
            name: "accounting-revenue-month"@,
            dashboard: "accounting"@,
            title: "Revenue this month"@,
            description: "Booked revenue for the current month, against last month."@,
            kind: WidgetKind::Stat,
            permission: permissions::REPORTS_VIEW@,
            default_position: Some(2u8),
        },
        Declared {
            name: "accounting-expenses-month"@,
            dashboard: "accounting"@,
            title: "Expenses this month"@,
            description: "Booked expenses for the current month, against last month."@,
            kind: WidgetKind::Stat,
            permission: permissions::REPORTS_VIEW@,
            default_position: Some(3u8),
        },
        Declared {
            name: "accounting-net-income-month"@,
            dashboard: "accounting"@,
            title: "Net income this month"@,
            description: "Revenue minus expenses for the current month."@,
            kind: WidgetKind::Stat,
            permission: permissions::REPORTS_VIEW@,
            default_position: Some(4u8),
        },
        Declared {
            name: "accounting-revenue-vs-expenses"@,
            dashboard: "accounting"@,
            title: "Revenue vs expenses"@,
            description: "Monthly booked revenue against expenses, last six months."@,
            kind: WidgetKind::Chart,
            permission: permissions::REPORTS_VIEW@,
            default_position: Some(5u8),
        },
        Declared {
            name: "accounting-expense-breakdown"@,
            dashboard: "accounting"@,
            title: "Expense breakdown"@,
            description: "This month's expenses by account, largest first."@,
            kind: WidgetKind::Chart,
            permission: permissions::REPORTS_VIEW@,
            default_position: Some(6u8),
        },
        Declared {
            name: "accounting-recent-journals"@,
            dashboard: "accounting"@,
            title: "Recent journal entries"@,
            description: "The latest journal entries, newest first."@,
            kind: WidgetKind::Table,
            permission: permissions::REPORTS_VIEW@,
            default_position: Some(7u8),
        },
        Declared {
            name: "accounting-top-expenses"@,
            dashboard: "accounting"@,
            title: "Largest expenses"@,
            description: "This month's biggest expense accounts, with amounts."@,
            kind: WidgetKind::List,
            permission: permissions::REPORTS_VIEW@,
            default_position: None,
        },
        Declared {
            name: "workspace-cash-position"@,
            dashboard: "workspace"@,
            title: "Cash position"@,
            description: "The combined balance of the cash and bank accounts."@,
            kind: WidgetKind::Stat,
            permission: permissions::REPORTS_VIEW@,
            default_position: Some(1u8),
        },
        Declared {
            name: "workspace-revenue-month"@,
            dashboard: "workspace"@,
            title: "Revenue this month"@,
            description: "Booked revenue for the current month, against last month."@,
            kind: WidgetKind::Stat,
            permission: permissions::REPORTS_VIEW@,
            default_position: Some(2u8),
        },
        Declared {
            name: "workspace-net-income-month"@,
            dashboard: "workspace"@,
            title: "Net income this month"@,
            description: "Revenue minus expenses for the current month."@,
            kind: WidgetKind::Stat,
            permission: permissions::REPORTS_VIEW@,
            default_position: Some(3u8),
        },
    ]
}

/// The tiles, in the order in which they are declared.
pub fn tiles() -> (r: Vec<WidgetDefinition>)
    ensures
        all_declared(r@) == declarations(),
{
    let list = vec![
        WidgetDefinition {
            name: "accounting-cash-position",
            dashboard: "accounting",
            title: "Cash position",
            description: "The combined balance of the cash and bank accounts.",
            kind: WidgetKind::Stat,
            permission: permissions::REPORTS_VIEW,
            default_position: Some(1),
        },
        WidgetDefinition {
            name: "accounting-revenue-month",
            dashboard: "accounting",
            title: "Revenue this month",
            description: "Booked revenue for the current month, against last month.",
            kind: WidgetKind::Stat,
            permission: permissions::REPORTS_VIEW,
            default_position: Some(2),
        },
        WidgetDefinition {
            name: "accounting-expenses-month",
            dashboard: "accounting",
            title: "Expenses this month",
            description: "Booked expenses for the current month, against last month.",
            kind: WidgetKind::Stat,
            permission: permissions::REPORTS_VIEW,
            default_position: Some(3),
        },
        WidgetDefinition {
            name: "accounting-net-income-month",
            dashboard: "accounting",
            title: "Net income this month",
            description: "Revenue minus expenses for the current month.",
            kind: WidgetKind::Stat,
            permission: permissions::REPORTS_VIEW,
            default_position: Some(4),
        },
        WidgetDefinition {
            name: "accounting-revenue-vs-expenses",
            dashboard: "accounting",
            title: "Revenue vs expenses",
            description: "Monthly booked revenue against expenses, last six months.",
            kind: WidgetKind::Chart,
            permission: permissions::REPORTS_VIEW,
            default_position: Some(5),
        },
        WidgetDefinition {
            name: "accounting-expense-breakdown",
            dashboard: "accounting",
            title: "Expense breakdown",
            description: "This month's expenses by account, largest first.",
            kind: WidgetKind::Chart,
            permission: permissions::REPORTS_VIEW,
            default_position: Some(6),
        },
        WidgetDefinition {
            name: "accounting-recent-journals",
            dashboard: "accounting",
            title: "Recent journal entries",
            description: "The latest journal entries, newest first.",
            kind: WidgetKind::Table,
            permission: permissions::REPORTS_VIEW,
            default_position: Some(7),
        },
        WidgetDefinition {
            name: "accounting-top-expenses",
            dashboard: "accounting",
            title: "Largest expenses",
            description: "This month's biggest expense accounts, with amounts.",
            kind: WidgetKind::List,
            permission: permissions::REPORTS_VIEW,
            default_position: None,
        },
        WidgetDefinition {
            name: "workspace-cash-position",
            dashboard: "workspace",
            title: "Cash position",
            description: "The combined balance of the cash and bank accounts.",
            kind: WidgetKind::Stat,
            permission: permissions::REPORTS_VIEW,
            default_position: Some(1),
        },
        WidgetDefinition {
            name: "workspace-revenue-month",
            dashboard: "workspace",
            title: "Revenue this month",
            description: "Booked revenue for the current month, against last month.",
            kind: WidgetKind::Stat,
            permission: permissions::REPORTS_VIEW,
            default_position: Some(2),
        },
        WidgetDefinition {
            name: "workspace-net-income-month",
            dashboard: "workspace",
            title: "Net income this month",
            description: "Revenue minus expenses for the current month.",
            kind: WidgetKind::Stat,
            permission: permissions::REPORTS_VIEW,
            default_position: Some(3),
        },
    ];
    assert(all_declared(list@) =~= declarations());
    list
}

} // verus!
