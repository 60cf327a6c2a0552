//! The reasons for which a transaction record is turned down.

use crate::amount::Amount;
use vstd::prelude::*;

verus! {

/// Why a record was not applied. A record that is turned down changes nothing.
#[derive(Debug, PartialEq, Eq)]
pub enum TransactionError {
    /// The operation tag is none of the five known ones; carries the tag.
    UnrecognizedOperation(String),
    /// A withdrawal asks for more than is available: transaction, available, requested.
    InsufficientFunds(u32, Amount, Amount),
    /// A dispute would hold more than is available: transaction, available, amount to hold.
    InsufficientFundsToHold(u32, Amount, Amount),
    /// The client has no account yet: transaction, client.
    ClientNotFound(u32, u16),
    /// The client's account has no operation under the referenced transaction id.
    TransactionNotFound(u32),
    /// The referenced operation is not under dispute.
    TransactionNotDisputed(u32),
    /// Deposits and withdrawals are barred while the account is locked: transaction, client.
    AccountLocked(u32, u16),
    /// The record would push the account past what its counters can hold:
    /// transaction, client.
    CapacityExceeded(u32, u16),
}

} // verus!
