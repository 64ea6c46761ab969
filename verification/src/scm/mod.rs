//! The supply chain: stock control and the point of sale.

pub mod app;
pub mod document;
pub mod entries;
pub mod gl;
pub mod gl_report;
pub mod inventory;
pub mod outbox;
pub mod payables;
pub mod pos;
pub mod reconcile;
