//! Invoicing core: exact decimal money arithmetic, invoice total
//! calculation, sequential invoice numbering, and an invoice store with
//! atomicity and uniqueness guarantees.

pub mod analytics;
pub mod builder;
pub mod business_profile_repo;
pub mod calculator;
pub mod client_repo;
pub mod dates;
mod external;
pub mod format;
pub mod invoice_repo;
pub mod models;
pub mod money;
pub mod number_generator;
pub mod requests;
pub mod rows;
pub mod store;
pub mod text;
pub mod types;
