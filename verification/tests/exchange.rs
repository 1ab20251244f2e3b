use exchange::amount::MAX_MANTISSA;
use exchange::{
    Amount, Client, Exchange, ExchangeError, Processed, RawTransaction, Transaction,
    TransactionType, UnsupportedTransaction,
};

#[test]
fn test_deposit() {
    let mut exchange = Exchange::new();
    let tx = Transaction::new(1, 1, TransactionType::Deposit(Amount::new(1000, 0)));
    assert!(exchange.handle(tx).is_ok());
    let client = exchange.get_client(1).unwrap();
    assert_eq!(client.total, Amount::new(1000, 0));
    assert_eq!(client.available, Amount::new(1000, 0));
    assert_eq!(client.held, Amount::new(0, 0));
    assert_eq!(client.locked, false);
}

#[test]
fn test_withdraw_without_prior_deposit() {
    let mut exchange = Exchange::new();
    let tx = Transaction::new(1, 1, TransactionType::Withdraw(Amount::new(1000, 0)));
    assert!(exchange.handle(tx).is_err());
    // Transaction failed, but client was created
    let client = exchange.get_client(1).unwrap();
    assert_eq!(client.total, Amount::new(0, 0));
    assert_eq!(client.available, Amount::new(0, 0));
    assert_eq!(client.held, Amount::new(0, 0));
    assert_eq!(client.locked, false);
}

#[test]
fn test_same_id_rejected() {
    let mut exchange = Exchange::new();
    let tx = Transaction::new(1, 1, TransactionType::Deposit(Amount::new(1000, 0)));
    assert!(exchange.handle(tx).is_ok());
    let tx = Transaction::new(1, 1, TransactionType::Deposit(Amount::new(1000, 0)));
    assert!(exchange.handle(tx).is_err());
}

#[test]
fn test_deposit_withdraw() {
    let mut exchange = Exchange::new();
    let tx = Transaction::new(1, 1, TransactionType::Deposit(Amount::new(1000, 0)));
    assert!(exchange.handle(tx).is_ok());
    let tx = Transaction::new(2, 1, TransactionType::Withdraw(Amount::new(500, 0)));
    assert!(exchange.handle(tx).is_ok());
    let client = exchange.get_client(1).unwrap();
    assert_eq!(client.total, Amount::new(500, 0));
    assert_eq!(client.available, Amount::new(500, 0));
    assert_eq!(client.held, Amount::new(0, 0));
    assert_eq!(client.locked, false);
}

#[test]
fn test_dispute() {
    let mut exchange = Exchange::new();
    let tx = Transaction::new(1, 1, TransactionType::Deposit(Amount::new(1000, 0)));
    assert!(exchange.handle(tx).is_ok());
    let tx = Transaction::new(1, 1, TransactionType::Dispute);
    assert!(exchange.handle(tx).is_ok());

    let client = exchange.get_client(1).unwrap();
    assert_eq!(client.total, Amount::new(1000, 0));
    assert_eq!(client.available, Amount::new(0, 0));
    assert_eq!(client.held, Amount::new(1000, 0));
    assert_eq!(client.locked, false);
}

#[test]
fn test_resolve() {
    let mut exchange = Exchange::new();
    let tx = Transaction::new(1, 1, TransactionType::Deposit(Amount::new(1000, 0)));
    assert!(exchange.handle(tx).is_ok());
    let tx = Transaction::new(1, 1, TransactionType::Dispute);
    assert!(exchange.handle(tx).is_ok());
    let tx = Transaction::new(1, 1, TransactionType::Resolve);
    assert!(exchange.handle(tx).is_ok());

    let client = exchange.get_client(1).unwrap();
    assert_eq!(client.total, Amount::new(1000, 0));
    assert_eq!(client.available, Amount::new(1000, 0));
    assert_eq!(client.held, Amount::new(0, 0));
    assert_eq!(client.locked, false);
}

#[test]
fn test_chargeback() {
    let mut exchange = Exchange::new();
    let tx = Transaction::new(1, 1, TransactionType::Deposit(Amount::new(1000, 0)));
    assert!(exchange.handle(tx).is_ok());
    let tx = Transaction::new(1, 1, TransactionType::Dispute);
    assert!(exchange.handle(tx).is_ok());
    let tx = Transaction::new(1, 1, TransactionType::Chargeback);
    assert!(exchange.handle(tx).is_ok());

    let client = exchange.get_client(1).unwrap();
    assert_eq!(client.total, Amount::new(0, 0));
    assert_eq!(client.available, Amount::new(0, 0));
    assert_eq!(client.held, Amount::new(0, 0));
    assert_eq!(client.locked, true);
}

fn deposit(tx: u32, client: u16, amount: Amount) -> Transaction {
    Transaction::new(tx, client, TransactionType::Deposit(amount))
}

fn withdraw(tx: u32, client: u16, amount: Amount) -> Transaction {
    Transaction::new(tx, client, TransactionType::Withdraw(amount))
}

/// Hands the transaction to the exchange after asking whether it may.
fn apply(exchange: &mut Exchange, transaction: Transaction) -> Result<(), ExchangeError> {
    assert!(exchange.can_handle(&transaction));
    exchange.handle(transaction)
}

/// The three balances and the lock of a client.
fn balances(exchange: &mut Exchange, id: u16) -> (Amount, Amount, Amount, bool) {
    let client = exchange.get_client(id).unwrap();
    (client.available, client.held, client.total, client.locked)
}

fn whole(n: i64) -> Amount {
    Amount::new(n, 0)
}

#[test]
fn a_new_exchange_is_empty() {
    let mut exchange = Exchange::new();
    assert!(exchange.clients().is_empty());
    assert!(exchange.get_client(1).is_none());
    let mut exchange = Exchange::default();
    assert!(exchange.clients().is_empty());
    assert!(exchange.get_client(0).is_none());
}

#[test]
fn a_deposit_credits_total_and_available() {
    let mut exchange = Exchange::new();
    assert_eq!(apply(&mut exchange, deposit(1, 1, whole(1000))), Ok(()));
    assert_eq!(balances(&mut exchange, 1), (whole(1000), whole(0), whole(1000), false));
    let client = *exchange.get_client(1).unwrap();
    assert_eq!(client.id, 1);
    assert_eq!(apply(&mut exchange, deposit(2, 1, Amount::new(25, 2))), Ok(()));
    assert_eq!(
        balances(&mut exchange, 1),
        (Amount::new(100025, 2), whole(0), Amount::new(100025, 2), false)
    );
    let client = exchange.get_client(1).unwrap();
    assert_eq!(client.total.mantissa(), 100025);
    assert_eq!(client.total.scale(), 2);
}

#[test]
fn a_withdrawal_without_funds_is_rejected_and_registers_the_client() {
    let mut exchange = Exchange::new();
    let tx = withdraw(1, 1, whole(1000));
    assert_eq!(apply(&mut exchange, tx), Err(ExchangeError::InsufficientFunds(tx, whole(0))));
    assert_eq!(balances(&mut exchange, 1), (whole(0), whole(0), whole(0), false));
    assert_eq!(exchange.clients().len(), 1);
    // the rejected withdrawal never entered the log
    let dispute = Transaction::new(1, 1, TransactionType::Dispute);
    assert_eq!(apply(&mut exchange, dispute), Err(ExchangeError::UnknownTransaction(dispute)));
    assert_eq!(apply(&mut exchange, deposit(1, 1, whole(5))), Ok(()));
}

#[test]
fn a_withdrawal_of_more_than_is_available_changes_nothing() {
    let mut exchange = Exchange::new();
    assert_eq!(apply(&mut exchange, deposit(1, 1, whole(1000))), Ok(()));
    let tx = withdraw(2, 1, Amount::new(100001, 2));
    assert_eq!(apply(&mut exchange, tx), Err(ExchangeError::InsufficientFunds(tx, whole(1000))));
    assert_eq!(balances(&mut exchange, 1), (whole(1000), whole(0), whole(1000), false));
    assert_eq!(apply(&mut exchange, withdraw(2, 1, whole(1000))), Ok(()));
    assert_eq!(balances(&mut exchange, 1), (whole(0), whole(0), whole(0), false));
}

#[test]
fn held_funds_cannot_be_withdrawn() {
    let mut exchange = Exchange::new();
    assert_eq!(apply(&mut exchange, deposit(1, 1, whole(1000))), Ok(()));
    assert_eq!(apply(&mut exchange, deposit(2, 1, whole(10))), Ok(()));
    assert_eq!(apply(&mut exchange, Transaction::new(1, 1, TransactionType::Dispute)), Ok(()));
    let tx = withdraw(3, 1, whole(11));
    assert_eq!(apply(&mut exchange, tx), Err(ExchangeError::InsufficientFunds(tx, whole(10))));
    assert_eq!(balances(&mut exchange, 1), (whole(10), whole(1000), whole(1010), false));
}

#[test]
fn a_second_deposit_with_the_same_id_is_rejected() {
    let mut exchange = Exchange::new();
    let tx = deposit(1, 1, whole(1000));
    assert_eq!(apply(&mut exchange, tx), Ok(()));
    assert_eq!(apply(&mut exchange, tx), Err(ExchangeError::DuplicateTransactionId(tx)));
    assert_eq!(balances(&mut exchange, 1), (whole(1000), whole(0), whole(1000), false));
}

#[test]
fn a_duplicate_changes_nothing_however_often_it_is_tried() {
    let mut exchange = Exchange::new();
    assert_eq!(apply(&mut exchange, deposit(1, 1, whole(1000))), Ok(()));
    assert_eq!(apply(&mut exchange, withdraw(2, 1, whole(300))), Ok(()));
    let duplicates = [
        deposit(1, 1, whole(5)),
        withdraw(1, 1, whole(5)),
        deposit(2, 2, whole(5)),
        withdraw(2, 3, whole(5)),
    ];
    for _ in 0..3 {
        for tx in duplicates {
            assert_eq!(apply(&mut exchange, tx), Err(ExchangeError::DuplicateTransactionId(tx)));
            assert_eq!(balances(&mut exchange, 1), (whole(700), whole(0), whole(700), false));
            assert_eq!(exchange.clients().len(), 1);
            assert!(exchange.get_client(2).is_none());
            assert!(exchange.get_client(3).is_none());
        }
    }
}

#[test]
fn a_chargeback_locks_the_account() {
    let mut exchange = Exchange::new();
    assert_eq!(apply(&mut exchange, deposit(1, 1, whole(1000))), Ok(()));
    assert_eq!(apply(&mut exchange, Transaction::new(1, 1, TransactionType::Dispute)), Ok(()));
    assert_eq!(apply(&mut exchange, Transaction::new(1, 1, TransactionType::Chargeback)), Ok(()));
    assert_eq!(balances(&mut exchange, 1), (whole(0), whole(0), whole(0), true));
    let locked = *exchange.get_client(1).unwrap();
    assert_eq!(
        apply(&mut exchange, deposit(2, 1, whole(1000))),
        Err(ExchangeError::Locked(locked))
    );
    assert_eq!(balances(&mut exchange, 1), (whole(0), whole(0), whole(0), true));
    // the rejected deposit never entered the log
    let dispute = Transaction::new(2, 2, TransactionType::Dispute);
    assert_eq!(apply(&mut exchange, dispute), Err(ExchangeError::UnknownTransaction(dispute)));
}

#[test]
fn a_locked_account_never_changes_again() {
    let mut exchange = Exchange::new();
    assert_eq!(apply(&mut exchange, deposit(1, 1, whole(1000))), Ok(()));
    assert_eq!(apply(&mut exchange, deposit(2, 1, whole(50))), Ok(()));
    assert_eq!(apply(&mut exchange, deposit(3, 2, whole(7))), Ok(()));
    assert_eq!(apply(&mut exchange, Transaction::new(1, 1, TransactionType::Dispute)), Ok(()));
    assert_eq!(apply(&mut exchange, Transaction::new(1, 1, TransactionType::Chargeback)), Ok(()));
    let locked = *exchange.get_client(1).unwrap();
    assert_eq!((locked.available, locked.held, locked.total), (whole(50), whole(0), whole(50)));
    assert!(locked.locked);
    let later = [
        deposit(10, 1, whole(1)),
        withdraw(11, 1, whole(1)),
        Transaction::new(2, 1, TransactionType::Dispute),
        Transaction::new(2, 1, TransactionType::Resolve),
        Transaction::new(2, 1, TransactionType::Chargeback),
        Transaction::new(1, 1, TransactionType::Resolve),
    ];
    for tx in later {
        assert_eq!(apply(&mut exchange, tx), Err(ExchangeError::Locked(locked)));
        assert_eq!(*exchange.get_client(1).unwrap(), locked);
    }
    // other clients go on
    assert_eq!(apply(&mut exchange, deposit(12, 2, whole(1))), Ok(()));
    assert_eq!(balances(&mut exchange, 2), (whole(8), whole(0), whole(8), false));
    assert_eq!(*exchange.get_client(1).unwrap(), locked);
}

#[test]
fn a_dispute_of_an_unknown_transaction_registers_no_client() {
    let mut exchange = Exchange::new();
    let tx = Transaction::new(99, 1, TransactionType::Dispute);
    assert_eq!(apply(&mut exchange, tx), Err(ExchangeError::UnknownTransaction(tx)));
    assert!(exchange.get_client(1).is_none());
    assert!(exchange.clients().is_empty());
    let tx = Transaction::new(99, 1, TransactionType::Resolve);
    assert_eq!(apply(&mut exchange, tx), Err(ExchangeError::UnknownTransaction(tx)));
    let tx = Transaction::new(99, 1, TransactionType::Chargeback);
    assert_eq!(apply(&mut exchange, tx), Err(ExchangeError::UnknownTransaction(tx)));
    assert!(exchange.get_client(1).is_none());
    assert!(exchange.clients().is_empty());
}

#[test]
fn dispute_and_resolve_restore_the_balances() {
    let mut exchange = Exchange::new();
    assert_eq!(apply(&mut exchange, deposit(1, 1, Amount::new(12345, 2))), Ok(()));
    assert_eq!(apply(&mut exchange, deposit(2, 1, Amount::new(5, 1))), Ok(()));
    let before = balances(&mut exchange, 1);
    assert_eq!(before, (Amount::new(12395, 2), whole(0), Amount::new(12395, 2), false));
    assert_eq!(apply(&mut exchange, Transaction::new(2, 1, TransactionType::Dispute)), Ok(()));
    assert_eq!(
        balances(&mut exchange, 1),
        (Amount::new(12345, 2), Amount::new(5, 1), Amount::new(12395, 2), false)
    );
    assert_eq!(apply(&mut exchange, Transaction::new(2, 1, TransactionType::Resolve)), Ok(()));
    assert_eq!(balances(&mut exchange, 1), before);
}

#[test]
fn the_total_is_always_available_plus_held() {
    let mut exchange = Exchange::new();
    let stream = [
        deposit(1, 1, Amount::new(10005, 1)),
        deposit(2, 2, Amount::new(333, 3)),
        withdraw(3, 1, Amount::new(25, 2)),
        Transaction::new(1, 1, TransactionType::Dispute),
        withdraw(4, 1, whole(5000)),
        Transaction::new(2, 2, TransactionType::Dispute),
        Transaction::new(1, 1, TransactionType::Resolve),
        Transaction::new(2, 1, TransactionType::Dispute),
        Transaction::new(3, 1, TransactionType::Resolve),
        Transaction::new(2, 2, TransactionType::Chargeback),
        deposit(5, 2, whole(1)),
        withdraw(6, 3, whole(1)),
        Transaction::new(3, 3, TransactionType::Chargeback),
    ];
    for tx in stream {
        let _ = apply(&mut exchange, tx);
        for client in exchange.clients() {
            let sum = client.available.checked_add(client.held).unwrap();
            assert_eq!(client.total, sum);
        }
    }
    assert_eq!(exchange.clients().len(), 3);
}

#[test]
fn a_dispute_moves_funds_of_the_client_that_it_names() {
    let mut exchange = Exchange::new();
    assert_eq!(apply(&mut exchange, deposit(1, 1, whole(1000))), Ok(()));
    assert_eq!(apply(&mut exchange, Transaction::new(1, 2, TransactionType::Dispute)), Ok(()));
    assert_eq!(balances(&mut exchange, 1), (whole(1000), whole(0), whole(1000), false));
    assert_eq!(balances(&mut exchange, 2), (whole(-1000), whole(1000), whole(0), false));
}

#[test]
fn a_resolution_without_a_dispute_makes_held_funds_negative() {
    let mut exchange = Exchange::new();
    assert_eq!(apply(&mut exchange, deposit(1, 1, whole(1000))), Ok(()));
    assert_eq!(apply(&mut exchange, Transaction::new(1, 1, TransactionType::Resolve)), Ok(()));
    assert_eq!(balances(&mut exchange, 1), (whole(2000), whole(-1000), whole(1000), false));
    assert_eq!(apply(&mut exchange, Transaction::new(1, 1, TransactionType::Chargeback)), Ok(()));
    assert_eq!(balances(&mut exchange, 1), (whole(2000), whole(-2000), whole(0), true));
}

#[test]
fn a_withdrawal_can_be_disputed() {
    let mut exchange = Exchange::new();
    assert_eq!(apply(&mut exchange, deposit(1, 1, whole(1000))), Ok(()));
    assert_eq!(apply(&mut exchange, withdraw(2, 1, whole(400))), Ok(()));
    assert_eq!(apply(&mut exchange, Transaction::new(2, 1, TransactionType::Dispute)), Ok(()));
    assert_eq!(balances(&mut exchange, 1), (whole(200), whole(400), whole(600), false));
}

#[test]
fn clients_returns_every_account_once() {
    let mut exchange = Exchange::new();
    assert_eq!(apply(&mut exchange, deposit(1, 7, whole(1))), Ok(()));
    assert_eq!(apply(&mut exchange, deposit(2, 3, whole(2))), Ok(()));
    assert_eq!(apply(&mut exchange, deposit(3, 7, whole(3))), Ok(()));
    assert_eq!(apply(&mut exchange, deposit(4, 65535, whole(4))), Ok(()));
    let mut all: Vec<Client> = exchange.clients();
    all.sort_by_key(|client| client.id);
    assert_eq!(all.len(), 3);
    assert_eq!((all[0].id, all[0].total), (3, whole(2)));
    assert_eq!((all[1].id, all[1].total), (7, whole(4)));
    assert_eq!((all[2].id, all[2].total), (65535, whole(4)));
}

#[test]
fn balances_that_cannot_be_held_are_announced() {
    let largest = Amount::try_from_i128_with_scale(MAX_MANTISSA, 0).unwrap();
    let mut exchange = Exchange::new();
    assert_eq!(apply(&mut exchange, deposit(1, 1, largest)), Ok(()));
    // one more does not fit
    assert!(!exchange.can_handle(&deposit(2, 1, whole(1))));
    // nor a fraction, which asks for a larger scale
    assert!(!exchange.can_handle(&deposit(2, 1, Amount::new(1, 1))));
    assert!(!exchange.can_handle(&withdraw(2, 1, Amount::new(1, 1))));
    // a rejected transaction is always in range
    assert!(exchange.can_handle(&deposit(1, 1, whole(1))));
    assert!(exchange.can_handle(&Transaction::new(5, 1, TransactionType::Dispute)));
    // other clients are not concerned
    assert!(exchange.can_handle(&deposit(2, 2, whole(1))));
    assert!(exchange.can_handle(&withdraw(2, 1, whole(1))));
    assert_eq!(apply(&mut exchange, withdraw(2, 1, whole(1))), Ok(()));
    assert!(exchange.can_handle(&deposit(3, 1, whole(1))));
    // a dispute by another client would hold more than fits
    assert_eq!(apply(&mut exchange, Transaction::new(1, 1, TransactionType::Dispute)), Ok(()));
    assert!(exchange.can_handle(&Transaction::new(1, 1, TransactionType::Resolve)));
    assert!(!exchange.can_handle(&Transaction::new(1, 1, TransactionType::Dispute)));
}

fn record(ttype: &str, client: u16, tx: u32, amount: Option<Amount>) -> RawTransaction {
    RawTransaction { ttype: ttype.to_string(), client, tx, amount }
}

#[test]
fn records_are_applied_rejected_or_skipped() {
    let mut exchange = Exchange::new();
    let applied = exchange.process(record("deposit", 1, 1, Some(whole(1000))));
    assert_eq!(applied, Processed::Applied(deposit(1, 1, whole(1000))));
    let applied = exchange.process(record("withdrawal", 1, 2, Some(Amount::new(5, 1))));
    assert_eq!(applied, Processed::Applied(withdraw(2, 1, Amount::new(5, 1))));
    assert_eq!(
        balances(&mut exchange, 1),
        (Amount::new(9995, 1), whole(0), Amount::new(9995, 1), false)
    );
    let rejected = exchange.process(record("withdraw", 1, 3, Some(whole(1000))));
    assert_eq!(
        rejected,
        Processed::Rejected(ExchangeError::InsufficientFunds(
            withdraw(3, 1, whole(1000)),
            Amount::new(9995, 1)
        ))
    );
    let rejected = exchange.process(record("dispute", 1, 3, None));
    assert_eq!(
        rejected,
        Processed::Rejected(ExchangeError::UnknownTransaction(Transaction::new(
            3,
            1,
            TransactionType::Dispute
        )))
    );
    let skipped = exchange.process(record("dispute", 1, 1, Some(whole(1))));
    assert_eq!(
        skipped,
        Processed::Unsupported(UnsupportedTransaction {
            ttype: "dispute".to_string(),
            amount: Some(whole(1))
        })
    );
    let skipped = exchange.process(record("deposit", 2, 7, None));
    assert_eq!(
        skipped,
        Processed::Unsupported(UnsupportedTransaction { ttype: "deposit".to_string(), amount: None })
    );
    assert!(exchange.get_client(2).is_none());
    assert_eq!(
        balances(&mut exchange, 1),
        (Amount::new(9995, 1), whole(0), Amount::new(9995, 1), false)
    );
    assert_eq!(
        exchange.process(record("chargeback", 1, 1, None)),
        Processed::Applied(Transaction::new(1, 1, TransactionType::Chargeback))
    );
    assert_eq!(
        balances(&mut exchange, 1),
        (Amount::new(9995, 1), whole(-1000), Amount::new(-5, 1), true)
    );
}

#[test]
fn a_record_that_leads_out_of_range_changes_nothing() {
    let largest = Amount::try_from_i128_with_scale(MAX_MANTISSA, 0).unwrap();
    let mut exchange = Exchange::new();
    assert_eq!(
        exchange.process(record("deposit", 1, 1, Some(largest))),
        Processed::Applied(deposit(1, 1, largest))
    );
    assert_eq!(
        exchange.process(record("deposit", 1, 2, Some(Amount::new(1, 2)))),
        Processed::OutOfRange(deposit(2, 1, Amount::new(1, 2)))
    );
    assert_eq!(balances(&mut exchange, 1), (largest, whole(0), largest, false));
    // the transaction that was not handled never entered the log
    assert_eq!(
        exchange.process(record("deposit", 2, 2, Some(Amount::new(1, 2)))),
        Processed::Applied(deposit(2, 2, Amount::new(1, 2)))
    );
    assert_eq!(exchange.clients().len(), 2);
}
