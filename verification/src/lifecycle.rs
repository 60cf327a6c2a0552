//! What follows a dispute: how resolving it or charging it back relates to the account
//! before the dispute, and what an open dispute bars.

use crate::amount::Amount;
use crate::errors::TransactionError;
use crate::model::{
    closing_verdict, deposit_verdict, dispute_verdict, ledger_after, ledger_inv, Ledger,
};
use crate::operations::OperType;
use crate::validity::lemma_disputed_is_covered;
use vstd::prelude::*;

verus! {

/// A dispute followed by its resolve is neutral to the balances: the resolve is accepted
/// and gives back the available and the held funds that the account had before the
/// dispute. Where the operation was not under dispute before, the whole ledger is as it was.
pub proof fn lemma_dispute_then_resolve_restores(ledger: Ledger, client: u16, tx: u32)
    requires
        ledger_inv(ledger),
        dispute_verdict(ledger, client, tx) is Ok,
    ensures
        ({
            let amount = ledger[client].operations[tx].amount;
            let disputed = ledger_after(ledger, OperType::Dispute, client, tx, amount);
            let resolved = ledger_after(disputed, OperType::Resolve, client, tx, amount);
            &&& disputed[client].available == ledger[client].available - amount.0
            &&& disputed[client].held == ledger[client].held + amount.0
            &&& disputed[client].locked
            &&& closing_verdict(disputed, client, tx) is Ok
            &&& resolved[client].available == ledger[client].available
            &&& resolved[client].held == ledger[client].held
            &&& resolved[client].locked == ledger[client].locked
            &&& !ledger[client].is_disputed(tx) ==> resolved == ledger
        }),
{
    let amount = ledger[client].operations[tx].amount;
    let disputed = ledger_after(ledger, OperType::Dispute, client, tx, amount);
    let resolved = ledger_after(disputed, OperType::Resolve, client, tx, amount);
    if !ledger[client].is_disputed(tx) {
        assert(resolved[client].operations =~= ledger[client].operations);
    }
}

/// A dispute followed by its chargeback removes the amount for good: the chargeback is
/// accepted, the available funds stay lowered by the amount, the held funds are what they
/// were before the dispute, and so the total is lower by the amount.
pub proof fn lemma_dispute_then_chargeback_removes(ledger: Ledger, client: u16, tx: u32)
    requires
        ledger_inv(ledger),
        dispute_verdict(ledger, client, tx) is Ok,
    ensures
        ({
            let amount = ledger[client].operations[tx].amount;
            let disputed = ledger_after(ledger, OperType::Dispute, client, tx, amount);
            let charged = ledger_after(disputed, OperType::Chargeback, client, tx, amount);
            &&& closing_verdict(disputed, client, tx) is Ok
            &&& charged[client].available == ledger[client].available - amount.0
            &&& charged[client].held == ledger[client].held
            &&& charged[client].total() == ledger[client].total() - amount.0
            &&& charged[client].locked == ledger[client].locked
            &&& charged[client].disputed_count == ledger[client].disputed_count
            &&& !charged[client].is_disputed(tx)
        }),
{
}

/// A dispute can be closed once: after an accepted resolve, a second resolve of the same
/// operation is turned down as not disputed and changes nothing.
pub proof fn lemma_second_resolve_is_rejected(ledger: Ledger, client: u16, tx: u32, amount: Amount)
    requires
        closing_verdict(ledger, client, tx) is Ok,
    ensures
        ({
            let resolved = ledger_after(ledger, OperType::Resolve, client, tx, amount);
            &&& closing_verdict(resolved, client, tx) == Err::<(), TransactionError>(
                TransactionError::TransactionNotDisputed(tx),
            )
            &&& ledger_after(resolved, OperType::Resolve, client, tx, amount) == resolved
        }),
{
}

/// While a dispute of a client is open, every deposit for that client is turned down
/// because the account is locked.
pub proof fn lemma_open_dispute_bars_deposits(
    ledger: Ledger,
    client: u16,
    open: u32,
    tx: u32,
    amount: Amount,
)
    requires
        ledger_inv(ledger),
        ledger.contains_key(client),
        ledger[client].is_disputed(open) || ledger[client].disputed_count > 0,
    ensures
        deposit_verdict(ledger, client, tx, amount) == Err::<(), TransactionError>(
            TransactionError::AccountLocked(tx, client),
        ),
{
    if ledger[client].is_disputed(open) {
        lemma_disputed_is_covered(ledger[client], open);
    }
}

} // verus!
