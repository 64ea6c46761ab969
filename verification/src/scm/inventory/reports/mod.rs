//! Inventory reports: the stock position, read back.

pub mod reorder;
pub mod stock_balance;
pub mod stock_ledger;
pub mod valuation_summary;
