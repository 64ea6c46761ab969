//! Double-entry accounting.

pub mod account;
pub mod app;
pub mod corrections;
pub mod expense;
pub mod fiscal;
pub mod gl_port;
pub mod history;
pub mod journal;
pub mod ledger;
pub mod permissions;
pub mod reports;
pub mod roles;
pub mod seed;
pub mod shown;
pub mod tax;
pub mod tiles;
pub mod totals;
pub mod widgets;
