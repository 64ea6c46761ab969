//! Stock control: what the business holds, where, and at what value.
//!
//! An immutable ledger answers how stock came about; one level per item and
//! warehouse answers what is on hand now. Valuation is the moving average per
//! item and warehouse, in the order in which movements are posted.

pub mod batch;
pub mod item;
pub mod levels;
pub mod moves;
pub mod permissions;
pub mod reports;
pub mod stock;
pub mod tiles;
pub mod warehouse;
pub mod widgets;
