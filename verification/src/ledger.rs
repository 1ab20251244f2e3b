//! The ledger as a mathematical state machine.
//!
//! A [`Ledger`] is the state of an exchange: the accounts and the log of
//! accepted deposits and withdrawals. [`Ledger::outcome`] says whether a
//! transaction is accepted, [`Ledger::step`] what the ledger is afterwards.

use crate::amount::Amount;
use crate::client::{fetched, Client, ClientID};
use crate::error::ExchangeError;
use crate::transaction::{Transaction, TransactionID, TransactionType};
use vstd::prelude::*;

verus! {

/// The state of an exchange.
pub struct Ledger {
    /// The account of every client that a transaction has named.
    pub clients: Map<ClientID, Client>,
    /// The accepted deposits and withdrawals.
    pub log: Map<TransactionID, Transaction>,
}

impl Ledger {
    /// The ledger without clients and transactions.
    pub open spec fn empty() -> Ledger {
        Ledger { clients: Map::empty(), log: Map::empty() }
    }

    /// The account of `id`, or a new one where the client has none.
    pub open spec fn client(self, id: ClientID) -> Client {
        fetched(self.clients, id)
    }

    /// Whether `id` has an account and the account is locked.
    pub open spec fn is_locked(self, id: ClientID) -> bool {
        self.clients.contains_key(id) && self.clients[id].locked
    }

    /// Every account is stored under its own identifier and holds valid
    /// amounts; every logged transaction is stored under its own identifier
    /// and is a deposit or a withdrawal of a valid amount.
    pub open spec fn valid(self) -> bool {
        &&& forall|id: ClientID| #[trigger]
            self.clients.contains_key(id) ==> self.clients[id].id == id && self.clients[id].valid()
        &&& forall|tx: TransactionID| #[trigger]
            self.log.contains_key(tx) ==> self.log[tx].tx == tx && self.log[tx].amount() is Some
                && self.log[tx].valid()
    }

    /// In every account the total is the sum of available and held funds.
    pub open spec fn balanced(self) -> bool {
        forall|id: ClientID| #[trigger]
            self.clients.contains_key(id) ==> self.clients[id].balanced()
    }

    /// Whether `transaction` is accepted, and if not, why not.
    ///
    /// A deposit or withdrawal is rejected where its identifier is in the log;
    /// a dispute, resolution or chargeback where its identifier is not, or
    /// where the logged transaction has no amount. Any transaction is rejected
    /// where the account of its client is locked, and a withdrawal where it asks
    /// for more than the available funds.
    pub open spec fn outcome(self, transaction: Transaction) -> Result<(), ExchangeError> {
        let client = self.client(transaction.client);
        match transaction.ttype {
            TransactionType::Deposit(_) => {
                if self.log.contains_key(transaction.tx) {
                    Err(ExchangeError::DuplicateTransactionId(transaction))
                } else if client.locked {
                    Err(ExchangeError::Locked(client))
                } else {
                    Ok(())
                }
            },
            TransactionType::Withdraw(amount) => {
                if self.log.contains_key(transaction.tx) {
                    Err(ExchangeError::DuplicateTransactionId(transaction))
                } else if client.locked {
                    Err(ExchangeError::Locked(client))
                } else if client.available@ < amount@ {
                    Err(ExchangeError::InsufficientFunds(transaction, client.available))
                } else {
                    Ok(())
                }
            },
            TransactionType::Dispute | TransactionType::Resolve | TransactionType::Chargeback => {
                if !self.log.contains_key(transaction.tx) {
                    Err(ExchangeError::UnknownTransaction(transaction))
                } else if self.log[transaction.tx].amount() is None {
                    Err(ExchangeError::InvalidTransaction(transaction))
                } else if client.locked {
                    Err(ExchangeError::Locked(client))
                } else {
                    Ok(())
                }
            },
        }
    }

    /// The account of the transaction's client after the transaction has been
    /// accepted.
    pub open spec fn applied(self, transaction: Transaction) -> Client {
        let client = self.client(transaction.client);
        match transaction.ttype {
            TransactionType::Deposit(amount) => client.deposited(amount),
            TransactionType::Withdraw(amount) => client.withdrawn(amount),
            TransactionType::Dispute => client.disputed(self.log[transaction.tx].amount().unwrap()),
            TransactionType::Resolve => client.resolved(self.log[transaction.tx].amount().unwrap()),
            TransactionType::Chargeback => client.charged_back(
                self.log[transaction.tx].amount().unwrap(),
            ),
        }
    }

    /// Whether the balances that `transaction` leads to can be held, if it is
    /// accepted.
    ///
    /// Each new balance is a sum or a difference of a balance and the amount,
    /// and must have a mantissa of at most 96 bits at the larger of their two
    /// scales (`Amount::sum_fits`, `Amount::diff_fits`). A result that is a
    /// decimal only at a smaller scale is out of range: `10^28` and `1.0` have
    /// the sum `10^28 + 1`, which has no such mantissa at scale 1.
    pub open spec fn in_range(self, transaction: Transaction) -> bool {
        let client = self.client(transaction.client);
        self.outcome(transaction) is Ok ==> match transaction.ttype {
            TransactionType::Deposit(amount) => client.can_deposit(amount),
            TransactionType::Withdraw(amount) => client.can_withdraw(amount),
            TransactionType::Dispute => client.can_dispute(
                self.log[transaction.tx].amount().unwrap(),
            ),
            TransactionType::Resolve => client.can_resolve(
                self.log[transaction.tx].amount().unwrap(),
            ),
            TransactionType::Chargeback => client.can_chargeback(
                self.log[transaction.tx].amount().unwrap(),
            ),
        }
    }

    /// The ledger after `transaction` has been handled.
    ///
    /// An accepted transaction changes the account of its client; a deposit or
    /// withdrawal also enters the log. A rejected transaction changes nothing,
    /// with one exception: a withdrawal that is rejected for insufficient funds
    /// leaves a new account behind where its client had none.
    pub open spec fn step(self, transaction: Transaction) -> Ledger {
        match self.outcome(transaction) {
            Ok(_) => Ledger {
                clients: self.clients.insert(transaction.client, self.applied(transaction)),
                log: if transaction.amount() is Some {
                    self.log.insert(transaction.tx, transaction)
                } else {
                    self.log
                },
            },
            Err(ExchangeError::InsufficientFunds(_, _)) => Ledger {
                clients: self.clients.insert(transaction.client, self.client(transaction.client)),
                log: self.log,
            },
            Err(_) => self,
        }
    }

    /// The ledger after the transactions have been handled one after the
    /// other.
    pub open spec fn after(self, transactions: Seq<Transaction>) -> Ledger
        decreases transactions.len(),
    {
        if transactions.len() == 0 {
            self
        } else {
            self.after(transactions.drop_last()).step(transactions.last())
        }
    }

    /// Whether each of the transactions has a valid amount, if it has one, and
    /// leads to balances that can be held when its turn comes.
    pub open spec fn all_in_range(self, transactions: Seq<Transaction>) -> bool
        decreases transactions.len(),
    {
        transactions.len() == 0 || {
            &&& self.all_in_range(transactions.drop_last())
            &&& transactions.last().valid()
            &&& self.after(transactions.drop_last()).in_range(transactions.last())
        }
    }

    /// The empty ledger is valid and balanced.
    pub proof fn lemma_empty()
        ensures
            Ledger::empty().valid(),
            Ledger::empty().balanced(),
    {
    }

    /// A valid ledger stays valid, and a balanced ledger stays balanced:
    /// whatever the transaction, the total of every account is afterwards the
    /// sum of its available and its held funds if it was so before.
    pub proof fn lemma_step_keeps_balance(self, transaction: Transaction)
        requires
            self.valid(),
            transaction.valid(),
            self.in_range(transaction),
        ensures
            self.step(transaction).valid(),
            self.balanced() ==> self.step(transaction).balanced(),
    {
        Amount::lemma_zero();
        if self.outcome(transaction) is Ok {
            let amount = match transaction.ttype {
                TransactionType::Deposit(amount) | TransactionType::Withdraw(amount) => amount,
                _ => self.log[transaction.tx].amount().unwrap(),
            };
            lemma_applied(self.client(transaction.client), amount);
        }
    }

    /// At every point in time the total of every account is the sum of its
    /// available and its held funds: whatever transactions an empty ledger
    /// has handled, it is valid and balanced.
    pub proof fn lemma_always_balanced(transactions: Seq<Transaction>)
        requires
            Ledger::empty().all_in_range(transactions),
        ensures
            Ledger::empty().after(transactions).valid(),
            Ledger::empty().after(transactions).balanced(),
        decreases transactions.len(),
    {
        if transactions.len() > 0 {
            Ledger::lemma_always_balanced(transactions.drop_last());
            Ledger::empty().after(transactions.drop_last()).lemma_step_keeps_balance(
                transactions.last(),
            );
        }
    }

    /// Once an account is locked, no transaction changes it.
    pub proof fn lemma_locked_forever(self, transaction: Transaction, id: ClientID)
        requires
            self.is_locked(id),
        ensures
            self.step(transaction).clients.contains_key(id),
            self.step(transaction).clients[id] == self.clients[id],
    {
    }

    /// A locked account stays as it is, whatever transactions follow.
    pub proof fn lemma_locked_for_good(self, transactions: Seq<Transaction>, id: ClientID)
        requires
            self.is_locked(id),
        ensures
            self.after(transactions).clients.contains_key(id),
            self.after(transactions).clients[id] == self.clients[id],
        decreases transactions.len(),
    {
        if transactions.len() > 0 {
            self.lemma_locked_for_good(transactions.drop_last(), id);
        }
    }

    /// Only an accepted chargeback locks an account, and it locks the account
    /// of its own client.
    pub proof fn lemma_only_chargeback_locks(self, transaction: Transaction, id: ClientID)
        requires
            !self.is_locked(id),
            self.step(transaction).is_locked(id),
        ensures
            transaction.ttype == TransactionType::Chargeback,
            transaction.client == id,
            self.outcome(transaction) is Ok,
    {
    }

    /// A rejected transaction changes no account and no logged transaction.
    /// It adds nothing to the ledger, with one exception: a withdrawal that is
    /// rejected for insufficient funds leaves a new account without funds
    /// where its client had none.
    pub proof fn lemma_rejected_changes_nothing(self, transaction: Transaction)
        requires
            self.outcome(transaction) is Err,
        ensures
            self.step(transaction).log == self.log,
            forall|id: ClientID| #[trigger]
                self.clients.contains_key(id) ==> self.step(transaction).clients.contains_key(id)
                    && self.step(transaction).clients[id] == self.clients[id],
            self.step(transaction) != self ==> {
                &&& self.outcome(transaction)->Err_0 is InsufficientFunds
                &&& !self.clients.contains_key(transaction.client)
                &&& self.step(transaction).clients == self.clients.insert(
                    transaction.client,
                    Client::spec_new(transaction.client),
                )
            },
    {
        if self.outcome(transaction)->Err_0 is InsufficientFunds {
            if self.clients.contains_key(transaction.client) {
                assert(self.step(transaction).clients =~= self.clients);
            }
        }
    }

    /// An accepted withdrawal leaves no negative available funds.
    pub proof fn lemma_withdrawal_leaves_no_debt(self, transaction: Transaction)
        requires
            self.valid(),
            transaction.valid(),
            transaction.ttype is Withdraw,
            self.outcome(transaction) is Ok,
            self.in_range(transaction),
        ensures
            self.step(transaction).client(transaction.client).available@ >= 0,
    {
        Amount::lemma_zero();
        lemma_applied(self.client(transaction.client), transaction.amount().unwrap());
    }

    /// No transaction removes a transaction from the log or changes one in it.
    pub proof fn lemma_log_grows(self, transaction: Transaction, tx: TransactionID)
        requires
            self.log.contains_key(tx),
        ensures
            self.step(transaction).log.contains_key(tx),
            self.step(transaction).log[tx] == self.log[tx],
    {
    }

    /// A deposit or withdrawal whose identifier is in the log is rejected and
    /// changes nothing, however often it is tried.
    pub proof fn lemma_duplicate_rejected(self, transaction: Transaction)
        requires
            transaction.amount() is Some,
            self.log.contains_key(transaction.tx),
        ensures
            self.outcome(transaction) == Err::<(), ExchangeError>(
                ExchangeError::DuplicateTransactionId(transaction),
            ),
            self.step(transaction) == self,
    {
    }

    /// Retrying a deposit or withdrawal whose identifier is in the log, any
    /// number of times, changes nothing.
    pub proof fn lemma_duplicates_change_nothing(
        self,
        transaction: Transaction,
        retries: Seq<Transaction>,
    )
        requires
            transaction.amount() is Some,
            self.log.contains_key(transaction.tx),
            forall|i: int| 0 <= i < retries.len() ==> retries[i] == transaction,
        ensures
            self.after(retries) == self,
        decreases retries.len(),
    {
        if retries.len() > 0 {
            self.lemma_duplicates_change_nothing(transaction, retries.drop_last());
        }
    }

    /// A deposit, then a dispute and a resolution that both name the deposit's
    /// identifier, all for one client: where the dispute is accepted so is the
    /// resolution, which gives the available and the held funds of the client
    /// the values that they had before the dispute. Neither the dispute nor
    /// the resolution changes the total or locks the account.
    pub proof fn lemma_dispute_resolve_round_trip(
        self,
        tx: TransactionID,
        client: ClientID,
        amount: Amount,
    )
        requires
            self.valid(),
            amount.wf(),
            self.in_range(deposit(tx, client, amount)),
            self.step(deposit(tx, client, amount)).in_range(dispute(tx, client)),
            self.step(deposit(tx, client, amount)).step(dispute(tx, client)).in_range(
                resolve(tx, client),
            ),
        ensures
            ({
                let deposited = self.step(deposit(tx, client, amount));
                let disputed = deposited.step(dispute(tx, client));
                let resolved = disputed.step(resolve(tx, client));
                &&& deposited.outcome(dispute(tx, client)) is Ok ==> disputed.outcome(
                    resolve(tx, client),
                ) is Ok
                &&& resolved.client(client).available@ == deposited.client(client).available@
                &&& resolved.client(client).held@ == deposited.client(client).held@
                &&& disputed.client(client).total == deposited.client(client).total
                &&& resolved.client(client).total == deposited.client(client).total
                &&& resolved.client(client).locked == deposited.client(client).locked
            }),
    {
        self.lemma_step_keeps_balance(deposit(tx, client, amount));
        self.step(deposit(tx, client, amount)).lemma_dispute_resolve(tx, client);
    }

    /// A dispute and a resolution that name the same transaction, for one
    /// client: where the dispute is accepted so is the resolution, which gives
    /// the available and the held funds the values that they had before the
    /// dispute. Neither changes the total or locks the account.
    pub proof fn lemma_dispute_resolve(self, tx: TransactionID, client: ClientID)
        requires
            self.valid(),
            self.in_range(dispute(tx, client)),
            self.step(dispute(tx, client)).in_range(resolve(tx, client)),
        ensures
            ({
                let disputed = self.step(dispute(tx, client));
                let resolved = disputed.step(resolve(tx, client));
                &&& self.outcome(dispute(tx, client)) is Ok ==> disputed.outcome(
                    resolve(tx, client),
                ) is Ok
                &&& resolved.client(client).available@ == self.client(client).available@
                &&& resolved.client(client).held@ == self.client(client).held@
                &&& disputed.client(client).total == self.client(client).total
                &&& resolved.client(client).total == self.client(client).total
                &&& resolved.client(client).locked == self.client(client).locked
            }),
    {
        Amount::lemma_zero();
        if self.outcome(dispute(tx, client)) is Ok {
            let amount = self.log[tx].amount().unwrap();
            lemma_applied(self.client(client), amount);
            lemma_applied(self.step(dispute(tx, client)).client(client), amount);
        }
    }
}

/// A deposit of `amount` for `client`.
pub open spec fn deposit(tx: TransactionID, client: ClientID, amount: Amount) -> Transaction {
    Transaction { tx, client, ttype: TransactionType::Deposit(amount) }
}

/// A dispute of the transaction `tx`, for `client`.
pub open spec fn dispute(tx: TransactionID, client: ClientID) -> Transaction {
    Transaction { tx, client, ttype: TransactionType::Dispute }
}

/// The resolution of the dispute of the transaction `tx`, for `client`.
pub open spec fn resolve(tx: TransactionID, client: ClientID) -> Transaction {
    Transaction { tx, client, ttype: TransactionType::Resolve }
}

/// Each change of an account whose balances can be held leaves valid amounts,
/// moves the values of the balances as that change says, and keeps a balanced
/// account balanced.
pub proof fn lemma_applied(client: Client, amount: Amount)
    requires
        client.valid(),
        amount.wf(),
    ensures
        client.can_deposit(amount) ==> {
            let after = client.deposited(amount);
            &&& after.valid()
            &&& after.total@ == client.total@ + amount@
            &&& after.available@ == client.available@ + amount@
            &&& client.balanced() ==> after.balanced()
        },
        client.can_withdraw(amount) ==> {
            let after = client.withdrawn(amount);
            &&& after.valid()
            &&& after.total@ == client.total@ - amount@
            &&& after.available@ == client.available@ - amount@
            &&& client.balanced() ==> after.balanced()
        },
        client.can_dispute(amount) ==> {
            let after = client.disputed(amount);
            &&& after.valid()
            &&& after.available@ == client.available@ - amount@
            &&& after.held@ == client.held@ + amount@
            &&& client.balanced() ==> after.balanced()
        },
        client.can_resolve(amount) ==> {
            let after = client.resolved(amount);
            &&& after.valid()
            &&& after.held@ == client.held@ - amount@
            &&& after.available@ == client.available@ + amount@
            &&& client.balanced() ==> after.balanced()
        },
        client.can_chargeback(amount) ==> {
            let after = client.charged_back(amount);
            &&& after.valid()
            &&& after.held@ == client.held@ - amount@
            &&& after.total@ == client.total@ - amount@
            &&& client.balanced() ==> after.balanced()
        },
{
    if client.total.sum_fits(amount) {
        client.total.lemma_plus(amount);
    }
    if client.available.sum_fits(amount) {
        client.available.lemma_plus(amount);
    }
    if client.held.sum_fits(amount) {
        client.held.lemma_plus(amount);
    }
    if client.total.diff_fits(amount) {
        client.total.lemma_minus(amount);
    }
    if client.available.diff_fits(amount) {
        client.available.lemma_minus(amount);
    }
    if client.held.diff_fits(amount) {
        client.held.lemma_minus(amount);
    }
}

} // verus!
