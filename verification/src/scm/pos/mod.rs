//! Point of sale: fast tills, consolidated books.
//!
//! A sale at the counter writes one order: no stock, no ledger. The session is
//! the unit of accountability (open with a float, sell, pay in and out, count,
//! close), and closing it consolidates the whole day.

pub mod blind;
pub mod booking;
pub mod catalog;
pub mod charges;
pub mod checkout;
pub mod close;
pub mod consolidate;
pub mod counting;
pub mod gate;
pub mod lasting;
pub mod outgoing;
pub mod permissions;
pub mod pricing;
pub mod reckoning;
pub mod refund;
pub mod register;
pub mod reports;
pub mod sale;
pub mod session;
pub mod settings;
pub mod shown;
pub mod takings;
pub mod tiles;
pub mod widgets;
