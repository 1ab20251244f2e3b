//! The reasons for which an exchange rejects a transaction.

use crate::amount::Amount;
use crate::client::Client;
use crate::transaction::Transaction;
use vstd::prelude::*;

verus! {

/// Why a transaction was rejected.
#[derive(Debug, Copy, Clone, PartialEq)]
pub enum ExchangeError {
    /// A deposit or withdrawal carries the identifier of an accepted one.
    DuplicateTransactionId(Transaction),
    /// A dispute, resolution or chargeback refers to a transaction that was
    /// never accepted.
    UnknownTransaction(Transaction),
    /// A withdrawal asks for more than the available funds, which are given.
    InsufficientFunds(Transaction, Amount),
    /// A dispute, resolution or chargeback refers to a transaction without an
    /// amount.
    InvalidTransaction(Transaction),
    /// The client's account is locked. Carries the account as it stands.
    Locked(Client),
}

} // verus!
