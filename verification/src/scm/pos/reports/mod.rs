//! Reports of the point of sale: the back office's view of the tills.

pub mod hourly_sales;
pub mod item_sales;
pub mod queries;
pub mod reflection;
pub mod session_summary;
pub mod tender_mix;
pub mod z_report;
