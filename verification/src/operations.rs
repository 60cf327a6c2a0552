//! Operation kinds and the log entry kept for each deposit and withdrawal.

use crate::amount::Amount;
use crate::errors::TransactionError;
use crate::text::same_text;
use std::str::FromStr;
use vstd::prelude::*;

verus! {

/// What a transaction record asks the ledger to do.
#[derive(Clone, Copy, Debug, PartialEq, Eq, Structural)]
pub enum OperType {
    Deposit,
    Withdrawal,
    Dispute,
    Resolve,
    Chargeback,
}

/// The operation kind that a tag names, if any. Tags are case-sensitive.
pub open spec fn classify(tag: Seq<char>) -> Option<OperType> {
    if tag == "deposit"@ {
        Some(OperType::Deposit)
    } else if tag == "withdrawal"@ {
        Some(OperType::Withdrawal)
    } else if tag == "dispute"@ {
        Some(OperType::Dispute)
    } else if tag == "resolve"@ {
        Some(OperType::Resolve)
    } else if tag == "chargeback"@ {
        Some(OperType::Chargeback)
    } else {
        None
    }
}

impl FromStr for OperType {
    type Err = TransactionError;

    /// Reads an operation tag; an unknown tag comes back inside the error.
    fn from_str(s: &str) -> (result: Result<Self, Self::Err>)
        ensures
            match classify(s@) {
                Some(kind) => result == Ok::<OperType, TransactionError>(kind),
                None => result matches Err(TransactionError::UnrecognizedOperation(tag))
                    && tag@ == s@,
            },
    {
        if same_text(s, "deposit") {
            Ok(OperType::Deposit)
        } else if same_text(s, "withdrawal") {
            Ok(OperType::Withdrawal)
        } else if same_text(s, "dispute") {
            Ok(OperType::Dispute)
        } else if same_text(s, "resolve") {
            Ok(OperType::Resolve)
        } else if same_text(s, "chargeback") {
            Ok(OperType::Chargeback)
        } else {
            Err(TransactionError::UnrecognizedOperation(s.to_owned()))
        }
    }
}

/// The log entry of one deposit or withdrawal.
#[derive(Clone, Copy, Debug, PartialEq, Eq, Structural)]
pub struct Operation {
    pub trans_type: OperType,
    pub amount: Amount,
    pub under_dispute: bool,
}

impl Operation {
    /// A new entry, not under dispute.
    pub fn new(operation: OperType, amount: Amount) -> (entry: Self)
        ensures
            entry == (Operation { trans_type: operation, amount, under_dispute: false }),
    {
        Self { trans_type: operation, amount, under_dispute: false }
    }
}

} // verus!
