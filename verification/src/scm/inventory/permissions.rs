//! The permissions of stock control.

use crate::permission::{grants, Grant, Permission};
use vstd::prelude::*;

verus! {

pub const INVENTORY: &'static str = "Pages.Inventory";

pub const ITEMS: &'static str = "Pages.Inventory.Items";

pub const ITEMS_VIEW: &'static str = "Pages.Inventory.Items.View";

pub const ITEMS_CREATE: &'static str = "Pages.Inventory.Items.Create";

pub const ITEMS_EDIT: &'static str = "Pages.Inventory.Items.Edit";

pub const ITEMS_DELETE: &'static str = "Pages.Inventory.Items.Delete";

pub const WAREHOUSES: &'static str = "Pages.Inventory.Warehouses";

pub const WAREHOUSES_VIEW: &'static str = "Pages.Inventory.Warehouses.View";

pub const WAREHOUSES_MANAGE: &'static str = "Pages.Inventory.Warehouses.Manage";

pub const MOVEMENTS: &'static str = "Pages.Inventory.Movements";

pub const MOVEMENTS_VIEW: &'static str = "Pages.Inventory.Movements.View";

pub const MOVEMENTS_CREATE: &'static str = "Pages.Inventory.Movements.Create";

pub const MOVEMENTS_POST: &'static str = "Pages.Inventory.Movements.Post";

pub const MOVEMENTS_REVERSE: &'static str = "Pages.Inventory.Movements.Reverse";

pub const ADJUSTMENTS: &'static str = "Pages.Inventory.Adjustments";

pub const ADJUSTMENTS_VIEW: &'static str = "Pages.Inventory.Adjustments.View";

pub const ADJUSTMENTS_CREATE: &'static str = "Pages.Inventory.Adjustments.Create";

pub const ADJUSTMENTS_POST: &'static str = "Pages.Inventory.Adjustments.Post";

pub const REPORTS: &'static str = "Pages.Inventory.Reports";

pub const REPORTS_VIEW: &'static str = "Pages.Inventory.Reports.View";

/// What can be granted in stock control.
pub open spec fn permissions() -> Seq<Grant> {
    seq![
        (INVENTORY@, "Inventory"@, None),
        (ITEMS@, "Items"@, Some(INVENTORY@)),
        (ITEMS_VIEW@, "View items"@, Some(ITEMS@)),
        (ITEMS_CREATE@, "Create items"@, Some(ITEMS@)),
        (ITEMS_EDIT@, "Edit items"@, Some(ITEMS@)),
        (ITEMS_DELETE@, "Delete items"@, Some(ITEMS@)),
        (WAREHOUSES@, "Warehouses"@, Some(INVENTORY@)),
        (WAREHOUSES_VIEW@, "View warehouses"@, Some(WAREHOUSES@)),
        (WAREHOUSES_MANAGE@, "Manage warehouses"@, Some(WAREHOUSES@)),
        (MOVEMENTS@, "Stock movements"@, Some(INVENTORY@)),
        (MOVEMENTS_VIEW@, "View stock movements"@, Some(MOVEMENTS@)),
        (MOVEMENTS_CREATE@, "Create stock movements"@, Some(MOVEMENTS@)),
        (MOVEMENTS_POST@, "Post stock movements"@, Some(MOVEMENTS@)),
        (MOVEMENTS_REVERSE@, "Reverse stock movements"@, Some(MOVEMENTS@)),
        (ADJUSTMENTS@, "Stock adjustments"@, Some(INVENTORY@)),
        (ADJUSTMENTS_VIEW@, "View stock adjustments"@, Some(ADJUSTMENTS@)),
        (ADJUSTMENTS_CREATE@, "Create stock adjustments"@, Some(ADJUSTMENTS@)),
        (ADJUSTMENTS_POST@, "Post stock adjustments"@, Some(ADJUSTMENTS@)),
        (REPORTS@, "Inventory reports"@, Some(INVENTORY@)),
        (REPORTS_VIEW@, "View inventory reports"@, Some(REPORTS@)),
    ]
}

/// The permissions, each after the one it stands under.
pub fn tree() -> (r: Vec<Permission>)
    ensures
        grants(r@) == permissions(),
{
    let list = vec![
        Permission::root(INVENTORY, "Inventory"),
        Permission::under(INVENTORY, ITEMS, "Items"),
        Permission::under(ITEMS, ITEMS_VIEW, "View items"),
        Permission::under(ITEMS, ITEMS_CREATE, "Create items"),
        Permission::under(ITEMS, ITEMS_EDIT, "Edit items"),
        Permission::under(ITEMS, ITEMS_DELETE, "Delete items"),
        Permission::under(INVENTORY, WAREHOUSES, "Warehouses"),
        Permission::under(WAREHOUSES, WAREHOUSES_VIEW, "View warehouses"),
        Permission::under(WAREHOUSES, WAREHOUSES_MANAGE, "Manage warehouses"),
        Permission::under(INVENTORY, MOVEMENTS, "Stock movements"),
        Permission::under(MOVEMENTS, MOVEMENTS_VIEW, "View stock movements"),
        Permission::under(MOVEMENTS, MOVEMENTS_CREATE, "Create stock movements"),
        Permission::under(MOVEMENTS, MOVEMENTS_POST, "Post stock movements"),
        Permission::under(MOVEMENTS, MOVEMENTS_REVERSE, "Reverse stock movements"),
        Permission::under(INVENTORY, ADJUSTMENTS, "Stock adjustments"),
        Permission::under(ADJUSTMENTS, ADJUSTMENTS_VIEW, "View stock adjustments"),
        Permission::under(ADJUSTMENTS, ADJUSTMENTS_CREATE, "Create stock adjustments"),
        Permission::under(ADJUSTMENTS, ADJUSTMENTS_POST, "Post stock adjustments"),
        Permission::under(INVENTORY, REPORTS, "Inventory reports"),
        Permission::under(REPORTS, REPORTS_VIEW, "View inventory reports"),
    ];
    assert(grants(list@) =~= permissions());
    list
}

} // verus!
