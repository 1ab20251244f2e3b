//! A ledger of client balances driven by a stream of deposits, withdrawals,
//! disputes, resolutions and chargebacks.
//!
//! [`Exchange::handle`] applies one transaction: it either changes the
//! balances as [`Ledger::step`] says or rejects the transaction with an
//! [`ExchangeError`] and leaves the ledger as it was.

pub mod amount;
pub mod client;
pub mod conversion;
pub mod error;
pub mod exchange;
pub mod ledger;
pub mod registry;
pub mod transaction;

pub use amount::Amount;
pub use client::{Client, ClientID};
pub use conversion::{RawTransaction, UnsupportedTransaction};
pub use error::ExchangeError;
pub use exchange::{Exchange, Processed};
pub use ledger::Ledger;
pub use registry::Registry;
pub use transaction::{Transaction, TransactionID, TransactionType};
