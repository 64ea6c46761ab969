//! The tiles that the point of sale declares.

use super::permissions;
use crate::dashboard::{all_declared, Declared, WidgetDefinition, WidgetKind};
use vstd::prelude::*;

verus! {

/// What the declared tiles say.
pub open spec fn declarations() -> Seq<Declared> {
    seq![
        Declared {
            name: "pos-takings-today"@,
            dashboard: "pos"@,
            title: "Takings today"@,
            description: "Net till takings today (sales minus refunds), against yesterday."@,
            kind: WidgetKind::Stat,
            permission: permissions::REPORTS_VIEW@,
            default_position: Some(1u8),
        },
        Declared {
            name: "pos-basket-today"@,
            dashboard: "pos"@,
            title: "Average basket"@,
            description: "Today's average sale value at the till."@,
            kind: WidgetKind::Stat,
            permission: permissions::REPORTS_VIEW@,
            default_position: Some(2u8),
        },
        Declared {
            name: "pos-tender-mix-today"@,
            dashboard: "pos"@,
            title: "Tender mix today"@,
            description: "How today's money arrived: cash, M-Pesa, card."@,
            kind: WidgetKind::Chart,
            permission: permissions::REPORTS_VIEW@,
            default_position: Some(3u8),
        },
        Declared {
            name: "pos-week-trend"@,
            dashboard: "pos"@,
            title: "Takings this week"@,
            description: "Net till takings per day, the last seven days."@,
            kind: WidgetKind::Chart,
            permission: permissions::REPORTS_VIEW@,
            default_position: Some(4u8),
        },
        Declared {
            name: "pos-open-sessions"@,
            dashboard: "pos"@,
            title: "Sessions on the floor"@,
            description: "Registers currently open (or stuck closing)."@,
            kind: WidgetKind::Table,
            permission: permissions::REPORTS_VIEW@,
            default_position: Some(5u8),
        },
        Declared {
            name: "pos-top-items-week"@,
            dashboard: "pos"@,
            title: "Best sellers this week"@,
            description: "What took the most money at the tills, last seven days."@,
            kind: WidgetKind::List,
            permission: permissions::REPORTS_VIEW@,
            default_position: Some(6u8),
        },
        Declared {
            name: "workspace-pos-takings-today"@,
            dashboard: "workspace"@,
            title: "Till takings today"@,
            description: "Net till takings today (sales minus refunds), against yesterday."@,
            kind: WidgetKind::Stat,
            permission: permissions::REPORTS_VIEW@,
            default_position: Some(6u8),
        },
    ]
}

/// The tiles, in the order in which they are declared.
pub fn tiles() -> (r: Vec<WidgetDefinition>)
    ensures
        all_declared(r@) == declarations(),
{
    let list = vec![
        WidgetDefinition {
            name: "pos-takings-today",
            dashboard: "pos",
            title: "Takings today",
            description: "Net till takings today (sales minus refunds), against yesterday.",
            kind: WidgetKind::Stat,
            permission: permissions::REPORTS_VIEW,
            default_position: Some(1),
        },
        WidgetDefinition {
            name: "pos-basket-today",
            dashboard: "pos",
            title: "Average basket",
            description: "Today's average sale value at the till.",
            kind: WidgetKind::Stat,
            permission: permissions::REPORTS_VIEW,
            default_position: Some(2),
        },
        WidgetDefinition {
            name: "pos-tender-mix-today",
            dashboard: "pos",
            title: "Tender mix today",
            description: "How today's money arrived: cash, M-Pesa, card.",
            kind: WidgetKind::Chart,
            permission: permissions::REPORTS_VIEW,
            default_position: Some(3),
        },
        WidgetDefinition {
            name: "pos-week-trend",
            dashboard: "pos",
            title: "Takings this week",
            description: "Net till takings per day, the last seven days.",
            kind: WidgetKind::Chart,
            permission: permissions::REPORTS_VIEW,
            default_position: Some(4),
        },
        WidgetDefinition {
            name: "pos-open-sessions",
            dashboard: "pos",
            title: "Sessions on the floor",
            description: "Registers currently open (or stuck closing).",
            kind: WidgetKind::Table,
            permission: permissions::REPORTS_VIEW,
            default_position: Some(5),
        },
        WidgetDefinition {
            name: "pos-top-items-week",
            dashboard: "pos",
            title: "Best sellers this week",
            description: "What took the most money at the tills, last seven days.",
            kind: WidgetKind::List,
            permission: permissions::REPORTS_VIEW,
            default_position: Some(6),
        },
        WidgetDefinition {
            name: "workspace-pos-takings-today",
            dashboard: "workspace",
            title: "Till takings today",
            description: "Net till takings today (sales minus refunds), against yesterday.",
            kind: WidgetKind::Stat,
            permission: permissions::REPORTS_VIEW,
            default_position: Some(6),
        },
    ];
    assert(all_declared(list@) =~= declarations());
    list
}

} // verus!
