//! The tiles that stock control declares.

use super::permissions;
use crate::dashboard::{all_declared, Declared, WidgetDefinition, WidgetKind};
use vstd::prelude::*;

verus! {

/// What the declared tiles say.
pub open spec fn declarations() -> Seq<Declared> {
    seq![
        Declared {
            name: "inventory-stock-value"@,
            dashboard: "inventory"@,
            title: "Stock value"@,
            description: "Total stock on hand at moving-average value."@,
            kind: WidgetKind::Stat,
            permission: permissions::REPORTS_VIEW@,
            default_position: Some(1u8),
        },
        Declared {
            name: "inventory-below-reorder"@,
            dashboard: "inventory"@,
            title: "Needs reordering"@,
            description: "Positions at or below their reorder level."@,
            kind: WidgetKind::Stat,
            permission: permissions::REPORTS_VIEW@,
            default_position: Some(2u8),
        },
        Declared {
            name: "inventory-value-by-warehouse"@,
            dashboard: "inventory"@,
            title: "Value by warehouse"@,
            description: "How the stock value is spread across warehouses."@,
            kind: WidgetKind::Chart,
            permission: permissions::REPORTS_VIEW@,
            default_position: Some(3u8),
        },
        Declared {
            name: "inventory-top-stock-items"@,
            dashboard: "inventory"@,
            title: "Most valuable stock"@,
            description: "The items holding the most value on hand."@,
            kind: WidgetKind::List,
            permission: permissions::REPORTS_VIEW@,
            default_position: Some(4u8),
        },
        Declared {
            name: "inventory-recent-movements"@,
            dashboard: "inventory"@,
            title: "Recent movements"@,
            description: "The latest stock movement documents, newest first."@,
            kind: WidgetKind::Table,
            permission: permissions::REPORTS_VIEW@,
            default_position: Some(5u8),
        },
        Declared {
            name: "workspace-stock-value"@,
            dashboard: "workspace"@,
            title: "Stock value"@,
            description: "Total stock on hand at moving-average value."@,
            kind: WidgetKind::Stat,
            permission: permissions::REPORTS_VIEW@,
            default_position: Some(4u8),
        },
    ]
}

/// The tiles, in the order in which they are declared.
pub fn tiles() -> (r: Vec<WidgetDefinition>)
    ensures
        all_declared(r@) == declarations(),
{
    let list = vec![
        WidgetDefinition {
            name: "inventory-stock-value",
            dashboard: "inventory",
            title: "Stock value",
            description: "Total stock on hand at moving-average value.",
            kind: WidgetKind::Stat,
            permission: permissions::REPORTS_VIEW,
            default_position: Some(1),
        },
        WidgetDefinition {
            name: "inventory-below-reorder",
            dashboard: "inventory",
            title: "Needs reordering",
            description: "Positions at or below their reorder level.",
            kind: WidgetKind::Stat,
            permission: permissions::REPORTS_VIEW,
            default_position: Some(2),
        },
        WidgetDefinition {
            name: "inventory-value-by-warehouse",
            dashboard: "inventory",
            title: "Value by warehouse",
            description: "How the stock value is spread across warehouses.",
            kind: WidgetKind::Chart,
            permission: permissions::REPORTS_VIEW,
            default_position: Some(3),
        },
        WidgetDefinition {
            name: "inventory-top-stock-items",
            dashboard: "inventory",
            title: "Most valuable stock",
            description: "The items holding the most value on hand.",
            kind: WidgetKind::List,
            permission: permissions::REPORTS_VIEW,
            default_position: Some(4),
        },
        WidgetDefinition {
            name: "inventory-recent-movements",
            dashboard: "inventory",
            title: "Recent movements",
            description: "The latest stock movement documents, newest first.",
            kind: WidgetKind::Table,
            permission: permissions::REPORTS_VIEW,
            default_position: Some(5),
        },
        WidgetDefinition {
            name: "workspace-stock-value",
            dashboard: "workspace",
            title: "Stock value",
            description: "Total stock on hand at moving-average value.",
            kind: WidgetKind::Stat,
            permission: permissions::REPORTS_VIEW,
            default_position: Some(4),
        },
    ];
    assert(all_declared(list@) =~= declarations());
    list
}

} // verus!
