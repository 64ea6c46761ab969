//! The rules of a small business suite: double-entry accounting, stock
//! control and the point of sale, as verified functions over plain values.

pub mod accounting;
pub mod clock;
pub mod dashboard;
pub mod date;
pub mod decimal;
pub mod error;
pub mod figures;
pub mod numerals;
pub mod permission;
pub mod port;
pub mod report;
pub mod scm;
pub mod search;
pub mod series;
pub mod sort;
pub mod sums;
pub mod text;
pub mod tile;
pub mod windows;
