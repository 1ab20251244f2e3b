//! The exchange: applies transactions to the accounts of its clients.

use crate::amount::Amount;
use crate::client::{Client, ClientID};
use crate::conversion::{RawTransaction, UnsupportedTransaction};
use crate::error::ExchangeError;
use crate::ledger::Ledger;
use crate::registry::Registry;
use crate::transaction::{Transaction, TransactionID, TransactionType};
use std::collections::HashMap;
use vstd::prelude::*;

verus! {

broadcast use vstd::std_specs::hash::group_hash_axioms;

/// What became of an input record.
#[derive(Debug, Clone, PartialEq)]
pub enum Processed {
    /// The record is a transaction, which was accepted.
    Applied(Transaction),
    /// The record is a transaction, which was rejected.
    Rejected(ExchangeError),
    /// The record is no transaction.
    Unsupported(UnsupportedTransaction),
    /// The record is a transaction that was not handled: an account would get
    /// a balance that cannot be held.
    OutOfRange(Transaction),
}

/// An exchange keeps the accounts of its clients and a log of the deposits and
/// withdrawals that it has accepted. A transaction that it rejects changes
/// nothing, but that a rejected withdrawal may leave a new account behind.
#[derive(Debug)]
pub struct Exchange {
    /// The accounts.
    registry: Registry,
    /// The accepted deposits and withdrawals, by their identifiers.
    transactions: HashMap<TransactionID, Transaction>,
}

impl View for Exchange {
    type V = Ledger;

    closed spec fn view(&self) -> Ledger {
        Ledger { clients: self.registry@, log: self.transactions@ }
    }
}

impl Exchange {
    /// The ledger is valid, and in every account the total is the sum of the
    /// available and the held funds.
    pub open spec fn wf(&self) -> bool {
        self@.valid() && self@.balanced()
    }

    /// A new exchange without clients and transactions.
    pub fn new() -> (r: Exchange)
        ensures
            r@ == Ledger::empty(),
            r.wf(),
    {
        Exchange { registry: Registry::new(), transactions: HashMap::new() }
    }

    /// The account of `id`, if the client has one.
    pub fn get_client(&mut self, id: ClientID) -> (r: Option<&Client>)
        ensures
            final(self)@ == old(self)@,
            match r {
                Some(client) => old(self)@.clients.contains_key(id) && *client == old(
                    self,
                )@.clients[id],
                None => !old(self)@.clients.contains_key(id),
            },
            old(self).wf() ==> (r matches Some(client) ==> client.id == id && client.balanced()),
    {
        assert(old(self).wf() && old(self)@.clients.contains_key(id) ==> old(self)@.clients[id].id
            == id && old(self)@.clients[id].balanced());
        self.registry.get(&id)
    }

    /// The accounts of all clients, in no particular order.
    pub fn clients(&self) -> (r: Vec<Client>)
        requires
            self.wf(),
        ensures
            r@.to_set() == self@.clients.values(),
            r@.len() == self@.clients.len(),
            r@.no_duplicates(),
            forall|i: int|
                0 <= i < r@.len() ==> self@.clients.contains_key(#[trigger] r@[i].id)
                    && self@.clients[r@[i].id] == r@[i] && r@[i].balanced(),
    {
        let all = self.registry.iter();
        proof {
            self@.clients.lemma_injective_values_len();
            all@.lemma_no_dup_set_cardinality();
            assert forall|i: int| 0 <= i < all@.len() implies self@.clients.contains_key(
                #[trigger] all@[i].id,
            ) && self@.clients[all@[i].id] == all@[i] && all@[i].balanced() by {
                assert(self@.clients.values().contains(all@[i]));
            }
        }
        all
    }

    /// The account of `id`, or a new one where the client has none.
    fn fetch(&self, id: ClientID) -> (r: Client)
        ensures
            r == self@.client(id),
    {
        match self.registry.clients.get(&id) {
            Some(client) => *client,
            None => Client::new(id),
        }
    }

    /// Whether `handle` can be called with `transaction`: whether the balances
    /// that it leads to, if it is accepted, can be held.
    ///
    /// A sum or difference is held at the larger of the scales of its two
    /// operands. One that has a mantissa of 96 bits only at a smaller scale
    /// counts as out of range, though the number is a decimal: adding `1.0` to
    /// `10^28` is refused, adding `1` is not.
    pub fn can_handle(&self, transaction: &Transaction) -> (r: bool)
        requires
            self.wf(),
        ensures
            r == self@.in_range(*transaction),
    {
        let client = self.fetch(transaction.client);
        match transaction.ttype {
            TransactionType::Deposit(amount) => {
                if self.transactions.contains_key(&transaction.tx) || client.locked {
                    return true;
                }
                client.total.checked_add(amount).is_some() && client.available.checked_add(
                    amount,
                ).is_some()
            },
            TransactionType::Withdraw(amount) => {
                if self.transactions.contains_key(&transaction.tx) || client.locked
                    || client.available < amount {
                    return true;
                }
                client.total.checked_sub(amount).is_some() && client.available.checked_sub(
                    amount,
                ).is_some()
            },
            TransactionType::Dispute => {
                match self.referred(transaction, &client) {
                    Some(amount) => client.available.checked_sub(amount).is_some()
                        && client.held.checked_add(amount).is_some(),
                    None => true,
                }
            },
            TransactionType::Resolve => {
                match self.referred(transaction, &client) {
                    Some(amount) => client.held.checked_sub(amount).is_some()
                        && client.available.checked_add(amount).is_some(),
                    None => true,
                }
            },
            TransactionType::Chargeback => {
                match self.referred(transaction, &client) {
                    Some(amount) => client.held.checked_sub(amount).is_some()
                        && client.total.checked_sub(amount).is_some(),
                    None => true,
                }
            },
        }
    }

    /// The amount that an accepted dispute, resolution or chargeback moves:
    /// the amount of the logged transaction that it refers to.
    fn referred(&self, transaction: &Transaction, client: &Client) -> (r: Option<Amount>)
        requires
            transaction.amount() is None,
            *client == self@.client(transaction.client),
        ensures
            r == if self@.outcome(*transaction) is Ok {
                self@.log[transaction.tx].amount()
            } else {
                None
            },
            self@.outcome(*transaction) is Ok ==> r is Some,
    {
        if client.locked {
            return None;
        }
        match self.transactions.get(&transaction.tx) {
            Some(prev_tx) => prev_tx.amount(),
            None => None,
        }
    }

    /// Rejects a transaction whose identifier is in the log.
    fn assert_id_available(&self, transaction: &Transaction) -> (r: Result<(), ExchangeError>)
        ensures
            r == if self@.log.contains_key(transaction.tx) {
                Err::<(), ExchangeError>(ExchangeError::DuplicateTransactionId(*transaction))
            } else {
                Ok(())
            },
    {
        if self.transactions.contains_key(&transaction.tx) {
            return Err(ExchangeError::DuplicateTransactionId(*transaction));
        }
        Ok(())
    }

    /// The logged transaction that `transaction` refers to.
    fn get_tx(&self, transaction: &Transaction) -> (r: Result<Transaction, ExchangeError>)
        ensures
            r == if self@.log.contains_key(transaction.tx) {
                Ok::<Transaction, ExchangeError>(self@.log[transaction.tx])
            } else {
                Err(ExchangeError::UnknownTransaction(*transaction))
            },
    {
        match self.transactions.get(&transaction.tx) {
            Some(prev_tx) => Ok(*prev_tx),
            None => Err(ExchangeError::UnknownTransaction(*transaction)),
        }
    }

    /// Handles one transaction: applies it to the account of its client, or
    /// rejects it.
    ///
    /// Whether it was accepted or rejected, the total of every account is
    /// afterwards the sum of its available and its held funds, and every
    /// account that was locked is as it was.
    ///
    /// The balances that an accepted transaction leads to must be amounts that
    /// can be held, each at the larger of the two scales that meet in it:
    /// `can_handle` tells, and `process` asks on its own.
    pub fn handle(&mut self, transaction: Transaction) -> (r: Result<(), ExchangeError>)
        requires
            old(self).wf(),
            old(self)@.in_range(transaction),
        ensures
            final(self).wf(),
            final(self)@ == old(self)@.step(transaction),
            r == old(self)@.outcome(transaction),
            final(self)@.balanced(),
            forall|id: ClientID| #[trigger]
                old(self)@.is_locked(id) ==> final(self)@.clients.contains_key(id)
                    && final(self)@.clients[id] == old(self)@.clients[id],
    {
        proof {
            match transaction.ttype {
                TransactionType::Deposit(amount) | TransactionType::Withdraw(amount) => {
                    use_type_invariant(&amount);
                },
                _ => {},
            }
            old(self)@.lemma_step_keeps_balance(transaction);
        }
        match transaction.ttype {
            TransactionType::Deposit(amount) => {
                self.assert_id_available(&transaction)?;
                let client = self.registry.get_mut(&transaction.client)?;
                client.total = client.total.checked_add(amount).unwrap();
                client.available = client.available.checked_add(amount).unwrap();
                self.transactions.insert(transaction.tx, transaction);
            },
            TransactionType::Withdraw(amount) => {
                self.assert_id_available(&transaction)?;
                let client = self.registry.get_mut(&transaction.client)?;
                if client.available < amount {
                    return Err(ExchangeError::InsufficientFunds(transaction, client.available));
                }
                client.total = client.total.checked_sub(amount).unwrap();
                client.available = client.available.checked_sub(amount).unwrap();
                self.transactions.insert(transaction.tx, transaction);
            },
            TransactionType::Dispute => {
                let prev_tx = self.get_tx(&transaction)?;
                match prev_tx.amount() {
                    Some(amount) => {
                        let client = self.registry.get_mut(&transaction.client)?;
                        client.available = client.available.checked_sub(amount).unwrap();
                        client.held = client.held.checked_add(amount).unwrap();
                    },
                    None => {
                        return Err(ExchangeError::InvalidTransaction(transaction));
                    },
                }
            },
            TransactionType::Resolve => {
                let prev_tx = self.get_tx(&transaction)?;
                match prev_tx.amount() {
                    Some(amount) => {
                        let client = self.registry.get_mut(&transaction.client)?;
                        client.held = client.held.checked_sub(amount).unwrap();
                        client.available = client.available.checked_add(amount).unwrap();
                    },
                    None => {
                        return Err(ExchangeError::InvalidTransaction(transaction));
                    },
                }
            },
            TransactionType::Chargeback => {
                let prev_tx = self.get_tx(&transaction)?;
                match prev_tx.amount() {
                    Some(amount) => {
                        let client = self.registry.get_mut(&transaction.client)?;
                        client.held = client.held.checked_sub(amount).unwrap();
                        client.total = client.total.checked_sub(amount).unwrap();
                        client.locked = true;
                    },
                    None => {
                        return Err(ExchangeError::InvalidTransaction(transaction));
                    },
                }
            },
        }
        Ok(())
    }

    /// Handles one input record: a record that is a transaction is handed to
    /// `handle`, unless it leads to balances that cannot be held. Any other
    /// record, and a transaction that is not handled, changes nothing.
    ///
    /// Whatever the record, the total of every account is afterwards the sum
    /// of its available and its held funds, and every account that was locked
    /// is as it was.
    pub fn process(&mut self, raw: RawTransaction) -> (r: Processed)
        requires
            old(self).wf(),
        ensures
            final(self).wf(),
            final(self)@.balanced(),
            forall|id: ClientID| #[trigger]
                old(self)@.is_locked(id) ==> final(self)@.clients.contains_key(id)
                    && final(self)@.clients[id] == old(self)@.clients[id],
            match raw.transaction() {
                Some(transaction) => if old(self)@.in_range(transaction) {
                    &&& final(self)@ == old(self)@.step(transaction)
                    &&& r == match old(self)@.outcome(transaction) {
                        Ok(_) => Processed::Applied(transaction),
                        Err(e) => Processed::Rejected(e),
                    }
                } else {
                    &&& final(self)@ == old(self)@
                    &&& r == Processed::OutOfRange(transaction)
                },
                None => {
                    &&& final(self)@ == old(self)@
                    &&& r == Processed::Unsupported(
                        UnsupportedTransaction { ttype: raw.ttype, amount: raw.amount },
                    )
                },
            },
    {
        let transaction = match Transaction::try_from(raw) {
            Ok(transaction) => transaction,
            Err(e) => {
                return Processed::Unsupported(e);
            },
        };
        if !self.can_handle(&transaction) {
            return Processed::OutOfRange(transaction);
        }
        match self.handle(transaction) {
            Ok(_) => Processed::Applied(transaction),
            Err(e) => Processed::Rejected(e),
        }
    }
}

impl Default for Exchange {
    fn default() -> (r: Exchange)
        ensures
            r@ == Ledger::empty(),
            r.wf(),
    {
        Self::new()
    }
}

} // verus!
