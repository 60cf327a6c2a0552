//! The ledger as mathematics: what an account holds, which records are accepted, and
//! what an accepted record does.

use crate::amount::Amount;
use crate::data_records::InputRecord;
use crate::errors::TransactionError;
use crate::operations::{classify, OperType, Operation};
use vstd::prelude::*;

verus! {

/// One more than the largest transaction id.
pub open spec fn tx_id_count() -> nat {
    0x1_0000_0000
}

/// What the operation under `tx` adds to the held funds: its amount while it is under
/// dispute, nothing otherwise.
pub open spec fn held_for(operations: Map<u32, Operation>, tx: u32) -> nat {
    if operations.contains_key(tx) && operations[tx].under_dispute {
        operations[tx].amount.0 as nat
    } else {
        0
    }
}

/// The amounts of the disputed operations whose id is below `bound`, added up.
pub open spec fn held_below(operations: Map<u32, Operation>, bound: nat) -> nat
    decreases bound,
{
    if bound == 0 {
        0
    } else {
        held_below(operations, (bound - 1) as nat) + held_for(operations, (bound - 1) as u32)
    }
}

/// The mathematical content of one client's account.
pub struct AccountState {
    pub available: nat,
    pub held: nat,
    pub locked: bool,
    pub disputed_count: nat,
    pub operations: Map<u32, Operation>,
}

/// The accounts of all known clients.
pub type Ledger = Map<u16, AccountState>;

impl AccountState {
    /// Available and held funds together.
    pub open spec fn total(self) -> nat {
        self.available + self.held
    }

    /// Whether `tx` names an operation that is under dispute.
    pub open spec fn is_disputed(self, tx: u32) -> bool {
        self.operations.contains_key(tx) && self.operations[tx].under_dispute
    }

    /// The ids of the operations that are under dispute.
    pub open spec fn disputed(self) -> Set<u32> {
        Set::new(|tx: u32| self.is_disputed(tx))
    }

    /// The amounts of all operations under dispute, added up.
    pub open spec fn disputed_amount(self) -> nat {
        held_below(self.operations, tx_id_count())
    }

    /// What holds of every account, whatever records were processed:
    /// the funds and the dispute counter fit their 64 bits, the account is locked exactly
    /// while the counter is positive, only deposits and withdrawals are logged, the counter
    /// covers every operation under dispute and the held funds cover their amounts.
    pub open spec fn inv(self) -> bool {
        &&& self.total() <= u64::MAX
        &&& self.disputed_count <= u64::MAX
        &&& self.locked == (self.disputed_count > 0)
        &&& self.operations.dom().finite()
        &&& forall|tx: u32| #[trigger]
            self.operations.contains_key(tx) ==> self.operations[tx].trans_type
                == OperType::Deposit || self.operations[tx].trans_type == OperType::Withdrawal
        &&& self.disputed().len() <= self.disputed_count
        &&& self.disputed_amount() <= self.held
    }

    /// The dispute counter is exactly the number of operations under dispute.
    pub open spec fn counts_disputes_exactly(self) -> bool {
        self.disputed_count == self.disputed().len()
    }

    /// The account that a client's first deposit opens.
    pub open spec fn opened(tx: u32, amount: Amount) -> AccountState {
        AccountState {
            available: amount.0 as nat,
            held: 0,
            locked: false,
            disputed_count: 0,
            operations: Map::empty().insert(
                tx,
                Operation { trans_type: OperType::Deposit, amount, under_dispute: false },
            ),
        }
    }

    /// The account after a deposit of `amount` under `tx`.
    pub open spec fn deposited(self, tx: u32, amount: Amount) -> AccountState {
        AccountState {
            available: self.available + amount.0 as nat,
            operations: self.operations.insert(
                tx,
                Operation { trans_type: OperType::Deposit, amount, under_dispute: false },
            ),
            ..self
        }
    }

    /// The account after a withdrawal of `amount` under `tx`.
    pub open spec fn withdrawn(self, tx: u32, amount: Amount) -> AccountState {
        AccountState {
            available: (self.available - amount.0) as nat,
            operations: self.operations.insert(
                tx,
                Operation { trans_type: OperType::Withdrawal, amount, under_dispute: false },
            ),
            ..self
        }
    }

    /// The account after the operation under `tx` was put under dispute: its amount moves
    /// from available to held.
    pub open spec fn disputing(self, tx: u32) -> AccountState {
        let entry = self.operations[tx];
        AccountState {
            available: (self.available - entry.amount.0) as nat,
            held: self.held + entry.amount.0 as nat,
            locked: true,
            disputed_count: self.disputed_count + 1,
            operations: self.operations.insert(tx, Operation { under_dispute: true, ..entry }),
        }
    }

    /// The account after the dispute of `tx` was resolved: its amount moves back from held
    /// to available.
    pub open spec fn resolved(self, tx: u32) -> AccountState {
        let entry = self.operations[tx];
        AccountState {
            available: self.available + entry.amount.0 as nat,
            held: (self.held - entry.amount.0) as nat,
            locked: self.locked && self.disputed_count - 1 != 0,
            disputed_count: (self.disputed_count - 1) as nat,
            operations: self.operations.insert(tx, Operation { under_dispute: false, ..entry }),
        }
    }

    /// The account after the dispute of `tx` ended in a chargeback: its amount leaves the
    /// held funds and is not credited back.
    pub open spec fn charged_back(self, tx: u32) -> AccountState {
        let entry = self.operations[tx];
        AccountState {
            available: self.available,
            held: (self.held - entry.amount.0) as nat,
            locked: self.locked && self.disputed_count - 1 != 0,
            disputed_count: (self.disputed_count - 1) as nat,
            operations: self.operations.insert(tx, Operation { under_dispute: false, ..entry }),
        }
    }
}

/// Every account of the ledger is as `AccountState::inv` says.
pub open spec fn ledger_inv(ledger: Ledger) -> bool {
    forall|client: u16| #[trigger] ledger.contains_key(client) ==> ledger[client].inv()
}

/// Whether a deposit is accepted. A client's first deposit always is.
pub open spec fn deposit_verdict(ledger: Ledger, client: u16, tx: u32, amount: Amount) -> Result<
    (),
    TransactionError,
> {
    if !ledger.contains_key(client) {
        Ok(())
    } else if ledger[client].locked {
        Err(TransactionError::AccountLocked(tx, client))
    } else if ledger[client].total() + amount.0 > u64::MAX {
        Err(TransactionError::CapacityExceeded(tx, client))
    } else {
        Ok(())
    }
}

/// Whether a withdrawal is accepted.
pub open spec fn withdrawal_verdict(
    ledger: Ledger,
    client: u16,
    tx: u32,
    amount: Amount,
) -> Result<(), TransactionError> {
    if !ledger.contains_key(client) {
        Err(TransactionError::ClientNotFound(tx, client))
    } else if ledger[client].locked {
        Err(TransactionError::AccountLocked(tx, client))
    } else if ledger[client].available < amount.0 {
        Err(
            TransactionError::InsufficientFunds(
                tx,
                Amount(ledger[client].available as u64),
                amount,
            ),
        )
    } else {
        Ok(())
    }
}

/// Whether a dispute is accepted. The amount to hold is that of the referenced operation.
pub open spec fn dispute_verdict(ledger: Ledger, client: u16, tx: u32) -> Result<
    (),
    TransactionError,
> {
    if !ledger.contains_key(client) {
        Err(TransactionError::ClientNotFound(tx, client))
    } else if !ledger[client].operations.contains_key(tx) {
        Err(TransactionError::TransactionNotFound(tx))
    } else if ledger[client].available < ledger[client].operations[tx].amount.0 {
        Err(
            TransactionError::InsufficientFundsToHold(
                tx,
                Amount(ledger[client].available as u64),
                ledger[client].operations[tx].amount,
            ),
        )
    } else if ledger[client].disputed_count >= u64::MAX {
        Err(TransactionError::CapacityExceeded(tx, client))
    } else {
        Ok(())
    }
}

/// Whether a resolve or a chargeback is accepted: both close a dispute.
pub open spec fn closing_verdict(ledger: Ledger, client: u16, tx: u32) -> Result<
    (),
    TransactionError,
> {
    if !ledger.contains_key(client) {
        Err(TransactionError::ClientNotFound(tx, client))
    } else if !ledger[client].operations.contains_key(tx) {
        Err(TransactionError::TransactionNotFound(tx))
    } else if !ledger[client].operations[tx].under_dispute {
        Err(TransactionError::TransactionNotDisputed(tx))
    } else {
        Ok(())
    }
}

/// Whether a record of the given kind is accepted. `amount` is read for deposits and
/// withdrawals only.
pub open spec fn verdict(
    ledger: Ledger,
    kind: OperType,
    client: u16,
    tx: u32,
    amount: Amount,
) -> Result<(), TransactionError> {
    match kind {
        OperType::Deposit => deposit_verdict(ledger, client, tx, amount),
        OperType::Withdrawal => withdrawal_verdict(ledger, client, tx, amount),
        OperType::Dispute => dispute_verdict(ledger, client, tx),
        OperType::Resolve => closing_verdict(ledger, client, tx),
        OperType::Chargeback => closing_verdict(ledger, client, tx),
    }
}

/// The client's account after an accepted record.
pub open spec fn account_after(
    ledger: Ledger,
    kind: OperType,
    client: u16,
    tx: u32,
    amount: Amount,
) -> AccountState {
    match kind {
        OperType::Deposit => if ledger.contains_key(client) {
            ledger[client].deposited(tx, amount)
        } else {
            AccountState::opened(tx, amount)
        },
        OperType::Withdrawal => ledger[client].withdrawn(tx, amount),
        OperType::Dispute => ledger[client].disputing(tx),
        OperType::Resolve => ledger[client].resolved(tx),
        OperType::Chargeback => ledger[client].charged_back(tx),
    }
}

/// The ledger after a record: an accepted record changes the client's account and no
/// other, a rejected record changes nothing.
pub open spec fn ledger_after(
    ledger: Ledger,
    kind: OperType,
    client: u16,
    tx: u32,
    amount: Amount,
) -> Ledger {
    if verdict(ledger, kind, client, tx, amount) is Ok {
        ledger.insert(client, account_after(ledger, kind, client, tx, amount))
    } else {
        ledger
    }
}

/// Every account of the ledger counts its disputes exactly.
pub open spec fn ledger_counts_disputes_exactly(ledger: Ledger) -> bool {
    forall|client: u16| #[trigger]
        ledger.contains_key(client) ==> ledger[client].counts_disputes_exactly()
}

/// Whether the record is a dispute that is accepted although the operation it refers to
/// is under dispute already. Such a record raises the dispute counter a second time for
/// one operation.
pub open spec fn disputes_again(ledger: Ledger, kind: OperType, client: u16, tx: u32) -> bool {
    &&& kind == OperType::Dispute
    &&& dispute_verdict(ledger, client, tx) is Ok
    &&& ledger[client].is_disputed(tx)
}

/// The ledger after `record` was processed: a record with an unknown tag changes nothing.
pub open spec fn ledger_after_record(ledger: Ledger, record: InputRecord) -> Ledger {
    match classify(record.oper_type@) {
        Some(kind) => ledger_after(ledger, kind, record.client, record.tx, record.requested()),
        None => ledger,
    }
}

/// Whether `record` disputes an operation again that is under dispute already.
pub open spec fn record_disputes_again(ledger: Ledger, record: InputRecord) -> bool {
    match classify(record.oper_type@) {
        Some(kind) => disputes_again(ledger, kind, record.client, record.tx),
        None => false,
    }
}

/// The ledger that an empty ledger becomes when `records` are processed in order.
pub open spec fn ledger_after_all(records: Seq<InputRecord>) -> Ledger
    decreases records.len(),
{
    if records.len() == 0 {
        Map::empty()
    } else {
        ledger_after_record(ledger_after_all(records.drop_last()), records.last())
    }
}

/// Whether some record of `records`, processed in order from an empty ledger, disputes
/// an operation again that is under dispute already.
pub open spec fn some_record_disputes_again(records: Seq<InputRecord>) -> bool
    decreases records.len(),
{
    if records.len() == 0 {
        false
    } else {
        let earlier = records.drop_last();
        some_record_disputes_again(earlier) || record_disputes_again(
            ledger_after_all(earlier),
            records.last(),
        )
    }
}

} // verus!
