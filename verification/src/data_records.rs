//! The shape in which transaction records reach the ledger.

use crate::amount::Amount;
use vstd::prelude::*;

verus! {

/// One transaction record, as decoded from the input.
#[derive(Debug, PartialEq, Eq)]
pub struct InputRecord {
    /// The operation tag, not yet classified.
    pub oper_type: String,
    pub client: u16,
    pub tx: u32,
    /// Read by deposits and withdrawals only; an absent amount counts as zero.
    pub amount: Option<Amount>,
}

impl InputRecord {
    /// The amount that a deposit or withdrawal of this record moves.
    pub open spec fn requested(&self) -> Amount {
        match self.amount {
            Some(amount) => amount,
            None => Amount(0),
        }
    }

    /// The amount that a deposit or withdrawal of this record moves.
    pub fn amount_or_zero(&self) -> (amount: Amount)
        ensures
            amount == self.requested(),
    {
        match self.amount {
            Some(amount) => amount,
            None => Amount(0),
        }
    }
}

} // verus!
