//! Proofs that no record, accepted or rejected, leads the ledger out of its invariant.

use crate::amount::Amount;
use crate::data_records::InputRecord;
use crate::model::{
    account_after, disputes_again, held_below, held_for, ledger_after, ledger_after_all,
    ledger_counts_disputes_exactly, ledger_inv, some_record_disputes_again, tx_id_count, verdict,
    AccountState, Ledger,
};
use crate::operations::{classify, OperType, Operation};
use vstd::prelude::*;
use vstd::set_lib::lemma_set_subset_finite;

verus! {

/// Two operation logs whose entries add the same to the held funds everywhere but under
/// `tx` differ in their sums by what `tx` adds.
proof fn lemma_held_below_one_change(
    before: Map<u32, Operation>,
    after: Map<u32, Operation>,
    tx: u32,
    bound: nat,
)
    requires
        bound <= tx_id_count(),
        forall|other: u32| other != tx ==> held_for(before, other) == held_for(after, other),
    ensures
        held_below(after, bound) + (if tx < bound {
            held_for(before, tx)
        } else {
            0
        }) == held_below(before, bound) + (if tx < bound {
            held_for(after, tx)
        } else {
            0
        }),
    decreases bound,
{
    if bound > 0 {
        lemma_held_below_one_change(before, after, tx, (bound - 1) as nat);
    }
}

/// A log without an operation under dispute holds nothing.
proof fn lemma_held_below_none_disputed(operations: Map<u32, Operation>, bound: nat)
    requires
        bound <= tx_id_count(),
        forall|tx: u32| held_for(operations, tx) == 0,
    ensures
        held_below(operations, bound) == 0,
    decreases bound,
{
    if bound > 0 {
        lemma_held_below_none_disputed(operations, (bound - 1) as nat);
    }
}

/// The set of disputed operations of a valid account is finite.
proof fn lemma_disputed_finite(account: AccountState)
    requires
        account.operations.dom().finite(),
    ensures
        account.disputed().finite(),
{
    lemma_set_subset_finite(account.operations.dom(), account.disputed());
}

/// The held funds of a valid account cover the amount of each operation under dispute, and
/// its dispute counter is positive while there is one.
pub proof fn lemma_disputed_is_covered(account: AccountState, tx: u32)
    requires
        account.inv(),
        account.is_disputed(tx),
    ensures
        account.operations[tx].amount.0 <= account.held,
        account.disputed_count >= 1,
        account.locked,
{
    let entry = account.operations[tx];
    let without = account.operations.insert(tx, Operation { under_dispute: false, ..entry });
    assert forall|other: u32| other != tx implies held_for(account.operations, other)
        == held_for(without, other) by {}
    lemma_held_below_one_change(account.operations, without, tx, tx_id_count());
    lemma_disputed_finite(account);
    assert(account.disputed().contains(tx));
    if account.disputed().len() == 0 {
        account.disputed().lemma_len0_is_empty();
    }
}

/// An unlocked valid account has no operation under dispute.
proof fn lemma_unlocked_has_no_dispute(account: AccountState)
    requires
        account.inv(),
        !account.locked,
    ensures
        forall|tx: u32| !account.is_disputed(tx),
{
    assert forall|tx: u32| !account.is_disputed(tx) by {
        if account.is_disputed(tx) {
            lemma_disputed_is_covered(account, tx);
        }
    }
}

/// The account that a first deposit opens is valid and counts its disputes exactly.
pub proof fn lemma_opened_is_valid(tx: u32, amount: Amount)
    ensures
        AccountState::opened(tx, amount).inv(),
        AccountState::opened(tx, amount).counts_disputes_exactly(),
{
    let account = AccountState::opened(tx, amount);
    assert(account.disputed() =~= Set::empty());
    assert forall|other: u32| held_for(account.operations, other) == 0 by {}
    lemma_held_below_none_disputed(account.operations, tx_id_count());
}

/// Logging a deposit or withdrawal under `tx` in an unlocked valid account gives a valid
/// account, as long as the funds still fit.
proof fn lemma_logged_is_valid(account: AccountState, after: AccountState, tx: u32)
    requires
        account.inv(),
        !account.locked,
        after.held == account.held,
        after.total() <= u64::MAX,
        after.locked == account.locked,
        after.disputed_count == account.disputed_count,
        after.operations.dom() == account.operations.dom().insert(tx),
        forall|other: u32|
            other != tx && account.operations.contains_key(other) ==> after.operations[other]
                == account.operations[other],
        !after.operations[tx].under_dispute,
        after.operations[tx].trans_type == OperType::Deposit || after.operations[tx].trans_type
            == OperType::Withdrawal,
    ensures
        after.inv(),
        after.disputed() == account.disputed(),
{
    lemma_unlocked_has_no_dispute(account);
    assert forall|other: u32| !after.is_disputed(other) by {
        if other != tx && after.operations.contains_key(other) {
            assert(!account.is_disputed(other));
        }
    }
    assert(after.disputed() =~= account.disputed());
    assert forall|other: u32| held_for(after.operations, other) == 0 by {
        assert(!after.is_disputed(other));
    }
    lemma_held_below_none_disputed(after.operations, tx_id_count());
}

/// A deposit that is accepted leaves a valid account valid.
pub proof fn lemma_deposited_is_valid(account: AccountState, tx: u32, amount: Amount)
    requires
        account.inv(),
        !account.locked,
        account.total() + amount.0 <= u64::MAX,
    ensures
        account.deposited(tx, amount).inv(),
        account.deposited(tx, amount).disputed() == account.disputed(),
{
    lemma_logged_is_valid(account, account.deposited(tx, amount), tx);
}

/// A withdrawal that is accepted leaves a valid account valid.
pub proof fn lemma_withdrawn_is_valid(account: AccountState, tx: u32, amount: Amount)
    requires
        account.inv(),
        !account.locked,
        amount.0 <= account.available,
    ensures
        account.withdrawn(tx, amount).inv(),
        account.withdrawn(tx, amount).disputed() == account.disputed(),
{
    lemma_logged_is_valid(account, account.withdrawn(tx, amount), tx);
}

/// A dispute that is accepted leaves a valid account valid.
pub proof fn lemma_disputing_is_valid(account: AccountState, tx: u32)
    requires
        account.inv(),
        account.operations.contains_key(tx),
        account.operations[tx].amount.0 <= account.available,
        account.disputed_count < u64::MAX,
    ensures
        account.disputing(tx).inv(),
        account.disputing(tx).disputed() == account.disputed().insert(tx),
{
    let after = account.disputing(tx);
    lemma_disputed_finite(account);
    assert(after.disputed() =~= account.disputed().insert(tx));
    assert forall|other: u32| other != tx implies held_for(account.operations, other)
        == held_for(after.operations, other) by {}
    lemma_held_below_one_change(account.operations, after.operations, tx, tx_id_count());
}

/// Closing a dispute, by a resolve or by a chargeback, leaves a valid account valid.
pub proof fn lemma_closing_is_valid(account: AccountState, tx: u32)
    requires
        account.inv(),
        account.is_disputed(tx),
    ensures
        account.resolved(tx).inv(),
        account.charged_back(tx).inv(),
        account.resolved(tx).disputed() == account.disputed().remove(tx),
        account.charged_back(tx).disputed() == account.disputed().remove(tx),
{
    let resolved = account.resolved(tx);
    let charged = account.charged_back(tx);
    lemma_disputed_is_covered(account, tx);
    lemma_disputed_finite(account);
    assert(resolved.disputed() =~= account.disputed().remove(tx));
    assert(charged.disputed() =~= account.disputed().remove(tx));
    assert forall|other: u32| other != tx implies held_for(account.operations, other)
        == held_for(resolved.operations, other) by {}
    lemma_held_below_one_change(account.operations, resolved.operations, tx, tx_id_count());
}

/// No record leads a valid ledger to an invalid one.
pub proof fn lemma_record_keeps_ledger_valid(
    ledger: Ledger,
    kind: OperType,
    client: u16,
    tx: u32,
    amount: Amount,
)
    requires
        ledger_inv(ledger),
    ensures
        ledger_inv(ledger_after(ledger, kind, client, tx, amount)),
{
    if verdict(ledger, kind, client, tx, amount) is Ok {
        let after = account_after(ledger, kind, client, tx, amount);
        assert(after.inv()) by {
            match kind {
                OperType::Deposit => {
                    if ledger.contains_key(client) {
                        lemma_deposited_is_valid(ledger[client], tx, amount);
                    } else {
                        lemma_opened_is_valid(tx, amount);
                    }
                },
                OperType::Withdrawal => {
                    lemma_withdrawn_is_valid(ledger[client], tx, amount);
                },
                OperType::Dispute => {
                    lemma_disputing_is_valid(ledger[client], tx);
                },
                OperType::Resolve => {
                    lemma_closing_is_valid(ledger[client], tx);
                },
                OperType::Chargeback => {
                    lemma_closing_is_valid(ledger[client], tx);
                },
            }
        }
    }
}

/// A record leaves the dispute counters exact, unless it disputes an operation again that
/// is under dispute already.
pub proof fn lemma_record_keeps_counters_exact(
    ledger: Ledger,
    kind: OperType,
    client: u16,
    tx: u32,
    amount: Amount,
)
    requires
        ledger_inv(ledger),
        ledger_counts_disputes_exactly(ledger),
        !disputes_again(ledger, kind, client, tx),
    ensures
        ledger_counts_disputes_exactly(ledger_after(ledger, kind, client, tx, amount)),
{
    if verdict(ledger, kind, client, tx, amount) is Ok {
        let after = account_after(ledger, kind, client, tx, amount);
        assert(after.counts_disputes_exactly()) by {
            match kind {
                OperType::Deposit => {
                    if ledger.contains_key(client) {
                        lemma_deposited_is_valid(ledger[client], tx, amount);
                    } else {
                        lemma_opened_is_valid(tx, amount);
                    }
                },
                OperType::Withdrawal => {
                    lemma_withdrawn_is_valid(ledger[client], tx, amount);
                },
                OperType::Dispute => {
                    lemma_disputing_is_valid(ledger[client], tx);
                    lemma_disputed_finite(ledger[client]);
                },
                OperType::Resolve => {
                    lemma_closing_is_valid(ledger[client], tx);
                    lemma_disputed_finite(ledger[client]);
                },
                OperType::Chargeback => {
                    lemma_closing_is_valid(ledger[client], tx);
                    lemma_disputed_finite(ledger[client]);
                },
            }
        }
    }
}

/// Whatever records are processed, in whatever order, every account stays valid: its funds
/// are not negative, its held funds cover the disputed amounts, its dispute counter covers
/// the operations under dispute, and it is locked exactly while the counter is positive.
/// The counter is exact as long as no record disputes an operation again that is under
/// dispute already.
pub proof fn lemma_every_history_is_valid(records: Seq<InputRecord>)
    ensures
        ledger_inv(ledger_after_all(records)),
        !some_record_disputes_again(records) ==> ledger_counts_disputes_exactly(
            ledger_after_all(records),
        ),
    decreases records.len(),
{
    if records.len() > 0 {
        let earlier = records.drop_last();
        let record = records.last();
        lemma_every_history_is_valid(earlier);
        match classify(record.oper_type@) {
            Some(kind) => {
                lemma_record_keeps_ledger_valid(
                    ledger_after_all(earlier),
                    kind,
                    record.client,
                    record.tx,
                    record.requested(),
                );
                if !some_record_disputes_again(records) {
                    lemma_record_keeps_counters_exact(
                        ledger_after_all(earlier),
                        kind,
                        record.client,
                        record.tx,
                        record.requested(),
                    );
                }
            },
            None => {},
        }
    }
}

} // verus!
