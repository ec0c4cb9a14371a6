//! A personal ledger: accounts, their transactions, balances and projections.
//!
//! Amounts are exact decimals computed by `rust_decimal`; dates are UNIX timestamps in
//! seconds whose calendar arithmetic is done by `chrono`.
pub mod accounts;
pub mod amount;
pub mod app;
pub mod datetime;
pub mod ledger;
pub mod transaction;
