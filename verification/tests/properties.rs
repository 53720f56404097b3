use ledger::errors::{Error, ErrorType};
use ledger::{AccountInfo, Amount, Engine, Event, Transaction, UNITS_PER_ONE};

fn whole(n: i128) -> Amount {
    Amount { units: n * UNITS_PER_ONE }
}

fn deposit(client: u16, tx: u32, amount: Amount) -> Transaction {
    Transaction {
        client,
        event: Event::Deposit { tx, amount },
    }
}

fn withdrawal(client: u16, tx: u32, amount: Amount) -> Transaction {
    Transaction {
        client,
        event: Event::Withdrawal { tx, amount },
    }
}

fn dispute(client: u16, tx: u32) -> Transaction {
    Transaction {
        client,
        event: Event::Dispute { tx },
    }
}

fn resolve(client: u16, tx: u32) -> Transaction {
    Transaction {
        client,
        event: Event::Resolve { tx },
    }
}

fn chargeback(client: u16, tx: u32) -> Transaction {
    Transaction {
        client,
        event: Event::Chargeback { tx },
    }
}

#[test]
fn unseen_client_reports_zero_unlocked() {
    let engine = Engine::new();
    assert_eq!(
        engine.account_info(42),
        AccountInfo {
            client: 42,
            available: whole(0),
            held: whole(0),
            total: whole(0),
            locked: false,
        }
    );
    assert!(engine.all_accounts().is_empty());
}

#[test]
fn negative_deposit_rejected() {
    let mut engine = Engine::new();
    assert_eq!(
        engine
            .handle(deposit(1, 1, Amount { units: -1 }))
            .unwrap_err()
            .error_type,
        ErrorType::NegativeDeposit { tx: 1 }
    );
    assert_eq!(engine.account_info(1).available, whole(0));
    // the identifier was not consumed by the rejected event
    engine.handle(deposit(1, 1, whole(3))).unwrap();
    assert_eq!(engine.account_info(1).available, whole(3));
}

#[test]
fn negative_withdrawal_rejected() {
    let mut engine = Engine::new();
    engine.handle(deposit(1, 1, whole(5))).unwrap();
    assert_eq!(
        engine
            .handle(withdrawal(1, 2, Amount { units: -20000 }))
            .unwrap_err()
            .error_type,
        ErrorType::NegativeWithdrawal { tx: 2 }
    );
    assert_eq!(engine.account_info(1).available, whole(5));
}

#[test]
fn dispute_lifecycle_on_unknown_transaction_rejected() {
    let mut engine = Engine::new();
    assert_eq!(
        engine.handle(dispute(1, 9)).unwrap_err().error_type,
        ErrorType::UnknownTransactionForDispute { tx: 9 }
    );
    assert_eq!(
        engine.handle(resolve(1, 9)).unwrap_err().error_type,
        ErrorType::UnknownTransactionForDispute { tx: 9 }
    );
    assert_eq!(
        engine.handle(chargeback(1, 9)).unwrap_err().error_type,
        ErrorType::UnknownTransactionForDispute { tx: 9 }
    );
}

#[test]
fn dispute_by_other_client_rejected_unless_global() {
    let mut engine = Engine::new();
    engine.handle(deposit(1, 1, whole(10))).unwrap();
    assert_eq!(
        engine.handle(dispute(2, 1)).unwrap_err().error_type,
        ErrorType::TransactionDoesNotMatchClient { tx: 1, client: 2 }
    );

    // with the policy on, any client may dispute any transaction; the
    // funds move on the owner's account
    let mut permissive = Engine::new();
    permissive.set_global_dispute(true);
    permissive.handle(deposit(1, 1, whole(10))).unwrap();
    permissive.handle(dispute(2, 1)).unwrap();
    assert_eq!(permissive.account_info(1).held, whole(10));
    assert_eq!(permissive.account_info(1).available, whole(0));
}

#[test]
fn dispute_twice_rejected() {
    let mut engine = Engine::new();
    engine.handle(deposit(1, 1, whole(10))).unwrap();
    engine.handle(dispute(1, 1)).unwrap();
    assert_eq!(
        engine.handle(dispute(1, 1)).unwrap_err().error_type,
        ErrorType::TransactionAlreadyUnderDispute { tx: 1 }
    );
}

#[test]
fn resolve_and_chargeback_need_open_dispute() {
    let mut engine = Engine::new();
    engine.handle(deposit(1, 1, whole(10))).unwrap();
    assert_eq!(
        engine.handle(resolve(1, 1)).unwrap_err().error_type,
        ErrorType::TransactionNotUnderDispute { tx: 1 }
    );
    assert_eq!(
        engine.handle(chargeback(1, 1)).unwrap_err().error_type,
        ErrorType::TransactionNotUnderDispute { tx: 1 }
    );
}

#[test]
fn reversed_transaction_is_terminal() {
    let mut engine = Engine::new();
    engine.handle(deposit(1, 1, whole(10))).unwrap();
    engine.handle(dispute(1, 1)).unwrap();
    engine.handle(chargeback(1, 1)).unwrap();
    assert_eq!(
        engine.handle(dispute(1, 1)).unwrap_err().error_type,
        ErrorType::TransactionAlreadyUnderDispute { tx: 1 }
    );
    assert_eq!(
        engine.handle(resolve(1, 1)).unwrap_err().error_type,
        ErrorType::TransactionNotUnderDispute { tx: 1 }
    );
    assert_eq!(
        engine.handle(chargeback(1, 1)).unwrap_err().error_type,
        ErrorType::TransactionNotUnderDispute { tx: 1 }
    );
}

#[test]
fn locked_account_rejects_deposits_and_withdrawals() {
    let mut engine = Engine::new();
    engine.handle(deposit(1, 1, whole(10))).unwrap();
    engine.handle(dispute(1, 1)).unwrap();
    engine.handle(chargeback(1, 1)).unwrap();
    assert_eq!(
        engine.handle(deposit(1, 2, whole(1))).unwrap_err().error_type,
        ErrorType::LockedAccount { client: 1 }
    );
    assert_eq!(
        engine.handle(withdrawal(1, 3, whole(1))).unwrap_err().error_type,
        ErrorType::LockedAccount { client: 1 }
    );
    // the rejected events committed no transaction records
    engine.handle(dispute(1, 2)).unwrap_err();
    assert_eq!(
        engine.handle(dispute(1, 2)).unwrap_err().error_type,
        ErrorType::UnknownTransactionForDispute { tx: 2 }
    );
}

#[test]
fn dispute_resolve_roundtrip_restores_balances() {
    let mut engine = Engine::new();
    engine.handle(deposit(1, 1, Amount { units: 12345 })).unwrap();
    engine.handle(withdrawal(1, 2, Amount { units: 2345 })).unwrap();
    let before = engine.account_info(1);
    engine.handle(dispute(1, 1)).unwrap();
    engine.handle(resolve(1, 1)).unwrap();
    assert_eq!(engine.account_info(1), before);
    // the transaction is eligible for dispute again
    engine.handle(dispute(1, 1)).unwrap();
    assert_eq!(engine.account_info(1).held, Amount { units: 12345 });
}

#[test]
fn disputing_a_withdrawal_moves_negative_value() {
    let mut engine = Engine::new();
    engine.handle(deposit(1, 1, whole(10))).unwrap();
    engine.handle(withdrawal(1, 2, whole(4))).unwrap();

    // flagged for operator attention, but not blocked
    assert!(engine.dispute_targets_withdrawal(&dispute(1, 2)));
    assert!(!engine.dispute_targets_withdrawal(&dispute(1, 1)));

    engine.handle(dispute(1, 2)).unwrap();
    assert_eq!(engine.account_info(1).available, whole(10));
    assert_eq!(engine.account_info(1).held, whole(-4));
    assert_eq!(engine.account_info(1).total, whole(6));
}

#[test]
fn total_is_available_plus_held() {
    let mut engine = Engine::new();
    engine.handle(deposit(1, 1, Amount { units: 12345 })).unwrap();
    engine.handle(deposit(2, 2, whole(7))).unwrap();
    engine.handle(withdrawal(1, 3, Amount { units: 45 })).unwrap();
    engine.handle(dispute(1, 1)).unwrap();
    for info in engine.all_accounts() {
        assert_eq!(info.total.units, info.available.units + info.held.units);
    }
}

#[test]
fn all_accounts_lists_every_client_once() {
    let mut engine = Engine::new();
    engine.handle(deposit(1, 1, whole(1))).unwrap();
    engine.handle(deposit(2, 2, whole(2))).unwrap();
    engine.handle(deposit(1, 3, whole(4))).unwrap();
    let mut infos = engine.all_accounts();
    infos.sort_by_key(|i| i.client);
    assert_eq!(
        infos,
        vec![engine.account_info(1), engine.account_info(2)]
    );
    assert_eq!(infos[0].available, whole(5));
}

#[test]
fn fits_detects_astronomical_balances() {
    let mut engine = Engine::new();
    let huge = Amount { units: i128::MAX };
    assert!(engine.fits(&deposit(1, 1, huge)));
    engine.handle(deposit(1, 1, huge)).unwrap();
    // one more unit would overflow the stored balance
    assert!(!engine.fits(&deposit(1, 2, Amount { units: 1 })));
    // a rejected event is always safe to apply
    assert!(engine.fits(&deposit(1, 1, whole(1))));
    assert!(engine.fits(&deposit(1, 2, Amount { units: -1 })));
}

#[test]
fn error_wraps_error_type() {
    let e = Error::from(ErrorType::LockedAccount { client: 3 });
    assert_eq!(e.error_type, ErrorType::LockedAccount { client: 3 });
}
