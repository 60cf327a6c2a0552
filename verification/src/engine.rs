//! The ledger: every client's account, and the handling of one record at a time.

use crate::amount::Amount;
use crate::data_records::InputRecord;
use crate::errors::TransactionError;
use crate::model::{
    closing_verdict, deposit_verdict, dispute_verdict, ledger_after, ledger_after_record,
    ledger_counts_disputes_exactly, ledger_inv, record_disputes_again, verdict,
    withdrawal_verdict, AccountState, Ledger,
};
use crate::operations::{classify, OperType, Operation};
use crate::validity::{
    lemma_disputed_is_covered, lemma_record_keeps_counters_exact, lemma_record_keeps_ledger_valid,
};
use std::collections::hash_map::Entry;
use std::collections::HashMap;
use std::str::FromStr;
use vstd::prelude::*;
use vstd::std_specs::hash::spec_hash_map_iter;
use vstd::std_specs::iter::IteratorSpec;

verus! {

broadcast use vstd::std_specs::hash::group_hash_axioms;

/// One line of the report: a client's funds and lock.
#[derive(Clone, Copy, Debug, PartialEq, Eq, Structural)]
pub struct AccountSummary {
    pub client: u16,
    pub available: Amount,
    pub held: Amount,
    /// Available and held funds together.
    pub total: Amount,
    pub locked: bool,
}

/// The report line of `client`, whose account is `account`.
pub open spec fn summary_of(client: u16, account: AccountState) -> AccountSummary {
    AccountSummary {
        client,
        available: Amount(account.available as u64),
        held: Amount(account.held as u64),
        total: Amount(account.total() as u64),
        locked: account.locked,
    }
}

/// One client's account.
pub struct Account {
    available: Amount,
    held: Amount,
    locked: bool,
    disputed_count: u64,
    operations: HashMap<u32, Operation>,
}

impl View for Account {
    type V = AccountState;

    closed spec fn view(&self) -> AccountState {
        AccountState {
            available: self.available.0 as nat,
            held: self.held.0 as nat,
            locked: self.locked,
            disputed_count: self.disputed_count as nat,
            operations: self.operations@,
        }
    }
}

impl Account {
    /// The funds that the client can withdraw.
    pub fn available(&self) -> (amount: Amount)
        ensures
            amount.0 == self@.available,
    {
        self.available
    }

    /// The funds that are held back while disputes are open.
    pub fn held(&self) -> (amount: Amount)
        ensures
            amount.0 == self@.held,
    {
        self.held
    }

    /// Whether deposits and withdrawals are barred.
    pub fn locked(&self) -> (locked: bool)
        ensures
            locked == self@.locked,
    {
        self.locked
    }

    /// The number of disputes that were opened and not yet closed.
    pub fn disputed_count(&self) -> (count: u64)
        ensures
            count == self@.disputed_count,
    {
        self.disputed_count
    }

    /// The logged operation under `tx`, if there is one.
    pub fn operation(&self, tx: u32) -> (found: Option<Operation>)
        ensures
            found == (if self@.operations.contains_key(tx) {
                Some(self@.operations[tx])
            } else {
                None
            }),
    {
        match self.operations.get(&tx) {
            Some(entry) => Some(*entry),
            None => None,
        }
    }

    /// The number of logged operations.
    pub fn operation_count(&self) -> (count: usize)
        ensures
            count == self@.operations.len(),
    {
        self.operations.len()
    }
}

/// The ledger that holds `accounts`.
spec fn ledger_of(accounts: Map<u16, Account>) -> Ledger {
    accounts.map_values(|account: Account| account@)
}

/// The ledger. It owns the account of every client that ever made a deposit.
pub struct Engine {
    database: HashMap<u16, Account>,
}

impl View for Engine {
    type V = Ledger;

    closed spec fn view(&self) -> Ledger {
        ledger_of(self.database@)
    }
}

impl Engine {
    /// Every account is valid, at all times.
    #[verifier::type_invariant]
    spec fn valid(self) -> bool {
        ledger_inv(self@)
    }

    /// A ledger without clients.
    pub fn new() -> (engine: Self)
        ensures
            engine@ == Map::<u16, AccountState>::empty(),
            ledger_inv(engine@),
    {
        let database = HashMap::new();
        Self { database }
    }

    /// The account of `client`, if the client is known.
    pub fn account(&self, client: u16) -> (found: Option<&Account>)
        ensures
            match found {
                Some(account) => self@.contains_key(client) && account@ == self@[client]
                    && account@.inv(),
                None => !self@.contains_key(client),
            },
    {
        proof {
            use_type_invariant(self);
        }
        self.database.get(&client)
    }

    /// The report: one line for each known client, in no particular order.
    pub fn output(&self) -> (rows: Vec<AccountSummary>)
        ensures
            rows@.len() == self@.dom().len(),
            forall|i: int|
                0 <= i < rows@.len() ==> self@.contains_key(#[trigger] rows@[i].client)
                    && rows@[i] == summary_of(rows@[i].client, self@[rows@[i].client]),
            forall|client: u16|
                self@.contains_key(client) ==> exists|i: int|
                    0 <= i < rows@.len() && #[trigger] rows@[i].client == client,
            forall|i: int, j: int|
                0 <= i < j < rows@.len() ==> #[trigger] rows@[i].client
                    != #[trigger] rows@[j].client,
    {
        proof {
            use_type_invariant(self);
        }
        let mut rows: Vec<AccountSummary> = Vec::new();
        let ghost listed = spec_hash_map_iter(&self.database).remaining();
        for (client, account) in it: self.database.iter()
            invariant
                ledger_inv(self@),
                it.seq() == listed,
                listed.no_duplicates(),
                rows@.len() == it.index(),
                forall|i: int|
                    0 <= i < rows@.len() ==> #[trigger] rows@[i] == summary_of(
                        *listed[i].0,
                        (*listed[i].1)@,
                    ),
        {
            assert(self@.contains_key(*client));
            rows.push(
                AccountSummary {
                    client: *client,
                    available: account.available,
                    held: account.held,
                    total: Amount(account.available.0 + account.held.0),
                    locked: account.locked,
                },
            );
        }
        proof {
            let accounts = self.database@;
            assert(self@.dom() =~= accounts.dom());
            assert forall|client: u16| self@.contains_key(client) implies exists|i: int|
                0 <= i < rows@.len() && #[trigger] rows@[i].client == client by {
                let pair = (&client, &accounts[client]);
                let i = choose|i: int| 0 <= i < listed.len() && listed[i] == pair;
                assert(rows@[i].client == client);
            }
            assert forall|i: int, j: int|
                0 <= i < j < rows@.len() implies #[trigger] rows@[i].client
                != #[trigger] rows@[j].client by {
                // Two entries under one key would hold one account, and none is listed twice.
                if *listed[i].0 == *listed[j].0 {
                    assert(accounts[*listed[i].0] == *listed[i].1);
                    assert(accounts[*listed[j].0] == *listed[j].1);
                    assert(listed[i] == listed[j]);
                }
            }
        }
        rows
    }

    /// Applies one record to the ledger, or turns it down.
    ///
    /// The operation tag is classified first. A record that is accepted changes the
    /// account of its client as the kind of the record says; a record that is turned down,
    /// for whatever reason, changes nothing. Either way every account stays valid.
    pub fn process_record(&mut self, record: InputRecord) -> (result: Result<
        (),
        TransactionError,
    >)
        ensures
            match classify(record.oper_type@) {
                Some(kind) => result == verdict(
                    old(self)@,
                    kind,
                    record.client,
                    record.tx,
                    record.requested(),
                ),
                None => result matches Err(TransactionError::UnrecognizedOperation(tag)) && tag@
                    == record.oper_type@,
            },
            final(self)@ == ledger_after_record(old(self)@, record),
            result is Err ==> final(self)@ == old(self)@,
            ledger_inv(final(self)@),
            ledger_counts_disputes_exactly(old(self)@) && !record_disputes_again(old(self)@, record)
                ==> ledger_counts_disputes_exactly(final(self)@),
    {
        let operation = match OperType::from_str(record.oper_type.as_str()) {
            Ok(operation) => operation,
            Err(unrecognized) => {
                proof {
                    use_type_invariant(&*self);
                }
                return Err(unrecognized);
            },
        };
        proof {
            use_type_invariant(&*self);
            if ledger_counts_disputes_exactly(self@) && !record_disputes_again(self@, record) {
                lemma_record_keeps_counters_exact(
                    self@,
                    operation,
                    record.client,
                    record.tx,
                    record.requested(),
                );
            }
        }
        // The accounts are worked on outside the ledger and put back when the record is done.
        let mut database = HashMap::new();
        std::mem::swap(&mut database, &mut self.database);
        let result = match operation {
            OperType::Deposit => Self::handle_deposit(&mut database, &record),
            OperType::Withdrawal => Self::handle_withdrawal(&mut database, &record),
            OperType::Dispute => Self::handle_dispute(&mut database, &record),
            OperType::Resolve => Self::handle_resolve(&mut database, &record),
            OperType::Chargeback => Self::handle_chargeback(&mut database, &record),
        };
        self.database = database;
        result
    }

    /// Credits the amount to the client's account and logs the deposit. The first deposit of
    /// a client opens the account; a locked account takes none.
    fn handle_deposit(database: &mut HashMap<u16, Account>, record: &InputRecord) -> (result:
        Result<(), TransactionError>)
        requires
            ledger_inv(ledger_of(old(database)@)),
        ensures
            ledger_inv(ledger_of(final(database)@)),
            result == deposit_verdict(
                ledger_of(old(database)@),
                record.client,
                record.tx,
                record.requested(),
            ),
            ledger_of(final(database)@) == ledger_after(
                ledger_of(old(database)@),
                OperType::Deposit,
                record.client,
                record.tx,
                record.requested(),
            ),
    {
        let amount = record.amount_or_zero();
        let ghost before = ledger_of(database@);
        let result = match database.entry(record.client) {
            Entry::Occupied(mut slot) => {
                let account = slot.get_mut();
                if account.locked {
                    Err(TransactionError::AccountLocked(record.tx, record.client))
                } else if amount.0 > u64::MAX - account.available.0 - account.held.0 {
                    Err(TransactionError::CapacityExceeded(record.tx, record.client))
                } else {
                    account.available = Amount(account.available.0 + amount.0);
                    account.operations.insert(record.tx, Operation::new(OperType::Deposit, amount));
                    Ok(())
                }
            },
            Entry::Vacant(slot) => {
                let mut operations = HashMap::new();
                operations.insert(record.tx, Operation::new(OperType::Deposit, amount));
                slot.insert(
                    Account {
                        available: amount,
                        held: Amount(0),
                        locked: false,
                        disputed_count: 0,
                        operations,
                    },
                );
                Ok(())
            },
        };
        proof {
            lemma_record_keeps_ledger_valid(
                before,
                OperType::Deposit,
                record.client,
                record.tx,
                amount,
            );
            assert(ledger_of(database@) =~= ledger_after(
                before,
                OperType::Deposit,
                record.client,
                record.tx,
                amount,
            ));
        }
        result
    }

    /// Takes the amount from the available funds of the client's account and logs the
    /// withdrawal, where the account is not locked and holds that much.
    fn handle_withdrawal(database: &mut HashMap<u16, Account>, record: &InputRecord) -> (result:
        Result<(), TransactionError>)
        requires
            ledger_inv(ledger_of(old(database)@)),
        ensures
            ledger_inv(ledger_of(final(database)@)),
            result == withdrawal_verdict(
                ledger_of(old(database)@),
                record.client,
                record.tx,
                record.requested(),
            ),
            ledger_of(final(database)@) == ledger_after(
                ledger_of(old(database)@),
                OperType::Withdrawal,
                record.client,
                record.tx,
                record.requested(),
            ),
    {
        let amount = record.amount_or_zero();
        let ghost before = ledger_of(database@);
        let result = match database.entry(record.client) {
            Entry::Occupied(mut slot) => {
                let account = slot.get_mut();
                if account.locked {
                    Err(TransactionError::AccountLocked(record.tx, record.client))
                } else if account.available.0 >= amount.0 {
                    account.available = Amount(account.available.0 - amount.0);
                    account.operations.insert(
                        record.tx,
                        Operation::new(OperType::Withdrawal, amount),
                    );
                    Ok(())
                } else {
                    Err(TransactionError::InsufficientFunds(record.tx, account.available, amount))
                }
            },
            Entry::Vacant(_) => Err(TransactionError::ClientNotFound(record.tx, record.client)),
        };
        proof {
            lemma_record_keeps_ledger_valid(
                before,
                OperType::Withdrawal,
                record.client,
                record.tx,
                amount,
            );
            assert(ledger_of(database@) =~= ledger_after(
                before,
                OperType::Withdrawal,
                record.client,
                record.tx,
                amount,
            ));
        }
        result
    }

    /// Puts the referenced operation under dispute: its amount moves from available to
    /// held, and the account is locked.
    fn handle_dispute(database: &mut HashMap<u16, Account>, record: &InputRecord) -> (result:
        Result<(), TransactionError>)
        requires
            ledger_inv(ledger_of(old(database)@)),
        ensures
            ledger_inv(ledger_of(final(database)@)),
            result == dispute_verdict(ledger_of(old(database)@), record.client, record.tx),
            ledger_of(final(database)@) == ledger_after(
                ledger_of(old(database)@),
                OperType::Dispute,
                record.client,
                record.tx,
                record.requested(),
            ),
    {
        let ghost before = ledger_of(database@);
        let result = match database.entry(record.client) {
            Entry::Occupied(mut slot) => {
                let account = slot.get_mut();
                match account.operations.get(&record.tx) {
                    Some(transaction) => {
                        let transaction = *transaction;
                        if account.available.0 < transaction.amount.0 {
                            Err(
                                TransactionError::InsufficientFundsToHold(
                                    record.tx,
                                    account.available,
                                    transaction.amount,
                                ),
                            )
                        } else if account.disputed_count == u64::MAX {
                            Err(TransactionError::CapacityExceeded(record.tx, record.client))
                        } else {
                            account.available = Amount(account.available.0 - transaction.amount.0);
                            account.held = Amount(account.held.0 + transaction.amount.0);
                            account.operations.insert(
                                record.tx,
                                Operation { under_dispute: true, ..transaction },
                            );
                            account.locked = true;
                            account.disputed_count += 1;
                            Ok(())
                        }
                    },
                    None => Err(TransactionError::TransactionNotFound(record.tx)),
                }
            },
            Entry::Vacant(_) => Err(TransactionError::ClientNotFound(record.tx, record.client)),
        };
        proof {
            lemma_record_keeps_ledger_valid(
                before,
                OperType::Dispute,
                record.client,
                record.tx,
                record.requested(),
            );
            assert(ledger_of(database@) =~= ledger_after(
                before,
                OperType::Dispute,
                record.client,
                record.tx,
                record.requested(),
            ));
        }
        result
    }

    /// Closes the dispute of the referenced operation in the client's favour: its amount
    /// moves back from held to available.
    fn handle_resolve(database: &mut HashMap<u16, Account>, record: &InputRecord) -> (result:
        Result<(), TransactionError>)
        requires
            ledger_inv(ledger_of(old(database)@)),
        ensures
            ledger_inv(ledger_of(final(database)@)),
            result == closing_verdict(ledger_of(old(database)@), record.client, record.tx),
            ledger_of(final(database)@) == ledger_after(
                ledger_of(old(database)@),
                OperType::Resolve,
                record.client,
                record.tx,
                record.requested(),
            ),
    {
        let ghost before = ledger_of(database@);
        let result = match database.entry(record.client) {
            Entry::Occupied(mut slot) => {
                let account = slot.get_mut();
                match account.operations.get(&record.tx) {
                    Some(transaction) => {
                        let transaction = *transaction;
                        if transaction.under_dispute {
                            proof {
                                lemma_disputed_is_covered(before[record.client], record.tx);
                            }
                            account.held = Amount(account.held.0 - transaction.amount.0);
                            account.available = Amount(account.available.0 + transaction.amount.0);
                            account.operations.insert(
                                record.tx,
                                Operation { under_dispute: false, ..transaction },
                            );
                            account.disputed_count -= 1;
                            if account.disputed_count == 0 {
                                account.locked = false;
                            }
                            Ok(())
                        } else {
                            Err(TransactionError::TransactionNotDisputed(record.tx))
                        }
                    },
                    None => Err(TransactionError::TransactionNotFound(record.tx)),
                }
            },
            Entry::Vacant(_) => Err(TransactionError::ClientNotFound(record.tx, record.client)),
        };
        proof {
            lemma_record_keeps_ledger_valid(
                before,
                OperType::Resolve,
                record.client,
                record.tx,
                record.requested(),
            );
            assert(ledger_of(database@) =~= ledger_after(
                before,
                OperType::Resolve,
                record.client,
                record.tx,
                record.requested(),
            ));
        }
        result
    }

    /// Closes the dispute of the referenced operation against the client: its amount
    /// leaves the held funds for good.
    fn handle_chargeback(database: &mut HashMap<u16, Account>, record: &InputRecord) -> (result:
        Result<(), TransactionError>)
        requires
            ledger_inv(ledger_of(old(database)@)),
        ensures
            ledger_inv(ledger_of(final(database)@)),
            result == closing_verdict(ledger_of(old(database)@), record.client, record.tx),
            ledger_of(final(database)@) == ledger_after(
                ledger_of(old(database)@),
                OperType::Chargeback,
                record.client,
                record.tx,
                record.requested(),
            ),
    {
        let ghost before = ledger_of(database@);
        let result = match database.entry(record.client) {
            Entry::Occupied(mut slot) => {
                let account = slot.get_mut();
                match account.operations.get(&record.tx) {
                    Some(transaction) => {
                        let transaction = *transaction;
                        if transaction.under_dispute {
                            proof {
                                lemma_disputed_is_covered(before[record.client], record.tx);
                            }
                            account.held = Amount(account.held.0 - transaction.amount.0);
                            account.operations.insert(
                                record.tx,
                                Operation { under_dispute: false, ..transaction },
                            );
                            account.disputed_count -= 1;
                            if account.disputed_count == 0 {
                                account.locked = false;
                            }
                            Ok(())
                        } else {
                            Err(TransactionError::TransactionNotDisputed(record.tx))
                        }
                    },
                    None => Err(TransactionError::TransactionNotFound(record.tx)),
                }
            },
            Entry::Vacant(_) => Err(TransactionError::ClientNotFound(record.tx, record.client)),
        };
        proof {
            lemma_record_keeps_ledger_valid(
                before,
                OperType::Chargeback,
                record.client,
                record.tx,
                record.requested(),
            );
            assert(ledger_of(database@) =~= ledger_after(
                before,
                OperType::Chargeback,
                record.client,
                record.tx,
                record.requested(),
            ));
        }
        result
    }
}

} // verus!
