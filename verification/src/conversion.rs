//! From input records to transactions.
//!
//! A record names the kind of its transaction by a label. A deposit or
//! withdrawal must come with an amount, and a dispute, resolution or chargeback
//! without one.

use crate::amount::Amount;
use crate::client::ClientID;
use crate::transaction::{Transaction, TransactionID, TransactionType};
use vstd::prelude::*;

verus! {

/// One input record, as it was read.
#[derive(Debug, Clone, PartialEq)]
pub struct RawTransaction {
    /// The label of the kind of transaction.
    pub ttype: String,
    /// The client.
    pub client: ClientID,
    /// The identifier of the transaction.
    pub tx: TransactionID,
    /// The amount, where the record has one.
    pub amount: Option<Amount>,
}

/// A record that is no transaction: its label is unknown, or it has an amount
/// where it should have none, or none where it should have one.
#[derive(Debug, Clone, PartialEq)]
pub struct UnsupportedTransaction {
    /// The label of the record.
    pub ttype: String,
    /// The amount of the record.
    pub amount: Option<Amount>,
}

/// The kind of transaction that a label and an amount denote, if any. Labels
/// are in lower case; a withdrawal is written `withdraw` or `withdrawal`.
pub open spec fn kind(label: Seq<char>, amount: Option<Amount>) -> Option<TransactionType> {
    match amount {
        Some(amount) => {
            if label == "deposit"@ {
                Some(TransactionType::Deposit(amount))
            } else if label == "withdraw"@ || label == "withdrawal"@ {
                Some(TransactionType::Withdraw(amount))
            } else {
                None
            }
        },
        None => {
            if label == "dispute"@ {
                Some(TransactionType::Dispute)
            } else if label == "resolve"@ {
                Some(TransactionType::Resolve)
            } else if label == "chargeback"@ {
                Some(TransactionType::Chargeback)
            } else {
                None
            }
        },
    }
}

impl RawTransaction {
    /// The transaction that the record denotes, if it denotes one.
    pub open spec fn transaction(self) -> Option<Transaction> {
        match kind(self.ttype@, self.amount) {
            Some(ttype) => Some(Transaction { tx: self.tx, client: self.client, ttype }),
            None => None,
        }
    }
}

/// Whether `label` is `word`.
fn is_label(label: &String, word: &str) -> (r: bool)
    ensures
        r == (label@ == word@),
{
    *label == word.to_owned()
}

/// The kind of transaction that a record's label and amount denote.
pub fn parse_ttype(ttype: String, amount: Option<Amount>) -> (r: Result<
    TransactionType,
    UnsupportedTransaction,
>)
    ensures
        match r {
            Ok(ttype_read) => kind(ttype@, amount) == Some(ttype_read),
            Err(e) => kind(ttype@, amount) is None && e.ttype == ttype && e.amount == amount,
        },
{
    match amount {
        Some(amount) => {
            if is_label(&ttype, "deposit") {
                Ok(TransactionType::Deposit(amount))
            } else if is_label(&ttype, "withdraw") || is_label(&ttype, "withdrawal") {
                Ok(TransactionType::Withdraw(amount))
            } else {
                Err(UnsupportedTransaction { ttype, amount: Some(amount) })
            }
        },
        None => {
            if is_label(&ttype, "dispute") {
                Ok(TransactionType::Dispute)
            } else if is_label(&ttype, "resolve") {
                Ok(TransactionType::Resolve)
            } else if is_label(&ttype, "chargeback") {
                Ok(TransactionType::Chargeback)
            } else {
                Err(UnsupportedTransaction { ttype, amount: None })
            }
        },
    }
}

impl Transaction {
    /// The transaction that a record denotes.
    pub fn try_from(raw: RawTransaction) -> (r: Result<Transaction, UnsupportedTransaction>)
        ensures
            match r {
                Ok(transaction) => raw.transaction() == Some(transaction),
                Err(e) => {
                    &&& raw.transaction() is None
                    &&& e.ttype == raw.ttype
                    &&& e.amount == raw.amount
                },
            },
    {
        let tx = raw.tx;
        let client = raw.client;
        match parse_ttype(raw.ttype, raw.amount) {
            Ok(ttype) => Ok(Transaction { tx, client, ttype }),
            Err(e) => Err(e),
        }
    }
}

} // verus!
