//! Stable roles of the accounts in the default chart, by which other modules
//! post to "the receivables account" without any configuration. An account may
//! be renamed or deactivated; its role stays.

use vstd::prelude::*;

verus! {

pub const CASH: &'static str = "cash";

pub const BANK: &'static str = "bank";

pub const AR: &'static str = "ar";

pub const INVENTORY: &'static str = "inventory";

/// Recoverable VAT paid on purchases (an asset).
pub const VAT_INPUT: &'static str = "vat_input";

pub const AP: &'static str = "ap";

/// Goods that have arrived and are not billed yet.
pub const GRNI: &'static str = "grni";

/// VAT collected on sales, owed to the authority (a liability).
pub const VAT_OUTPUT: &'static str = "vat_output";

pub const TAX_PAYABLE: &'static str = "tax_payable";

pub const OWNER_EQUITY: &'static str = "owner_equity";

pub const RETAINED_EARNINGS: &'static str = "retained_earnings";

pub const SALES: &'static str = "sales";

pub const OTHER_INCOME: &'static str = "other_income";

pub const COGS: &'static str = "cogs";

/// Stock that was counted up or down.
pub const STOCK_ADJUSTMENT: &'static str = "stock_adjustment";

/// What a purchase cost more or less than it was received at.
pub const PURCHASE_PRICE_VARIANCE: &'static str = "purchase_price_variance";

pub const OPEX: &'static str = "opex";

/// Absorbs sub-unit rounding differences on tax and allocation.
pub const ROUNDING: &'static str = "rounding";

} // verus!
