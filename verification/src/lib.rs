//! An in-memory ledger of client accounts, driven one transaction record at a time.
//!
//! A record is a deposit, a withdrawal, a dispute of an earlier operation, or the resolve
//! or chargeback that closes a dispute. [`engine::Engine`] holds the accounts and applies
//! the records; [`model`] says in mathematical terms which records are accepted and what
//! they do; [`validity`] and [`lifecycle`] hold what is proved of every ledger.
//! Amounts are fixed-point numbers ([`amount::Amount`]), so no rounding takes place.

pub mod amount;
pub mod cli;
pub mod data_records;
pub mod engine;
pub mod errors;
pub mod lifecycle;
pub mod model;
pub mod operations;
mod text;
pub mod validity;
