//! Transactions: the events that an exchange handles.

use crate::amount::Amount;
use crate::client::ClientID;
use vstd::prelude::*;

verus! {

/// Identifies a transaction. Disputes, resolutions and chargebacks carry the
/// identifier of the deposit or withdrawal that they refer to.
pub type TransactionID = u32;

/// The kinds of transactions.
#[derive(Debug, Copy, Clone, PartialEq)]
pub enum TransactionType {
    /// Credits the amount to the client.
    Deposit(Amount),
    /// Debits the amount from the client.
    Withdraw(Amount),
    /// Claims that an earlier transaction was erroneous: its amount is held.
    Dispute,
    /// Settles a dispute: the held amount is available again.
    Resolve,
    /// Ends a dispute by reversing the transaction: the held amount leaves
    /// the account, which is locked.
    Chargeback,
}

/// One transaction.
#[derive(Debug, Copy, Clone, PartialEq)]
pub struct Transaction {
    /// Identifies the transaction, or the one that it refers to.
    pub tx: TransactionID,
    /// The client whose account it changes.
    pub client: ClientID,
    /// Its kind, with the amount of a deposit or withdrawal.
    pub ttype: TransactionType,
}

impl Transaction {
    /// The amount of a deposit or withdrawal.
    pub open spec fn spec_amount(&self) -> Option<Amount> {
        match self.ttype {
            TransactionType::Deposit(amount) | TransactionType::Withdraw(amount) => Some(amount),
            _ => None,
        }
    }

    /// Whether the amount, if there is one, is a valid amount.
    pub open spec fn valid(self) -> bool {
        self.amount() matches Some(amount) ==> amount.wf()
    }

    /// A transaction of the given parts.
    pub fn new(tx: TransactionID, client: ClientID, ttype: TransactionType) -> (r: Self)
        ensures
            r == (Transaction { tx, client, ttype }),
    {
        Self { tx, client, ttype }
    }

    /// The amount of a deposit or withdrawal; other transactions have none.
    #[verifier::when_used_as_spec(spec_amount)]
    pub fn amount(&self) -> (r: Option<Amount>)
        ensures
            r == self.amount(),
    {
        match self.ttype {
            TransactionType::Deposit(amount) | TransactionType::Withdraw(amount) => Some(amount),
            _ => None,
        }
    }
}

} // verus!
