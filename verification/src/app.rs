//! Accounts in several currencies, with transactions that repeat every month.
pub mod account;
pub mod accounts;
pub mod message;
pub mod money;
pub mod ticker;
