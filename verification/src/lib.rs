//! In-memory account ledger: a fixed roster of accounts, each with a signed
//! balance, an immutable overdraft limit, and a bounded most-recent-first
//! history of accepted transactions.

pub mod account;
pub mod api;
pub mod history;
pub mod table;
pub mod transaction;

mod clock;
