use ledger::account::Account;
use ledger::error::ProcessorError;
use ledger::tx_amount::TxAmount;
use ledger::{LedgerAction, LedgerItem};

fn setup_account(_amount: TxAmount) -> Account {
    let mut account = Account::new();

    let deposit = LedgerItem {
        client_id: 1,
        tx_id: 1,
        action: LedgerAction::Deposit(TxAmount::new(10000)),
    };

    account.process(deposit).unwrap();

    account
}

#[test]
fn account_deposit() {
    let mut account = Account::new();

    let deposit = LedgerItem {
        client_id: 1,
        tx_id: 1,
        action: LedgerAction::Deposit(TxAmount::new(10000)),
    };

    account.process(deposit).unwrap();

    assert_eq!(account.is_locked(), false);
    assert_eq!(account.is_active(), true);

    assert_eq!(account.available(), TxAmount::new(10000));
    assert_eq!(account.held(), TxAmount::zero());
    assert_eq!(account.total(), TxAmount::new(10000));
}

#[test]
fn account_withdrawal() {
    let mut account = setup_account(TxAmount::new(10000));

    let withdrawal = LedgerItem {
        client_id: 1,
        tx_id: 2,
        action: LedgerAction::Withdrawal(TxAmount::new(10000)),
    };

    account.process(withdrawal).unwrap();

    assert_eq!(account.is_locked(), false);
    assert_eq!(account.is_active(), true);

    assert_eq!(account.available(), TxAmount::zero());
    assert_eq!(account.held(), TxAmount::zero());
    assert_eq!(account.total(), TxAmount::zero());
}

#[test]
fn account_dispute() {
    let mut account = setup_account(TxAmount::new(10000));

    let dispute = LedgerItem { client_id: 1, tx_id: 1, action: LedgerAction::Dispute };

    account.process(dispute).unwrap();

    assert_eq!(account.is_locked(), false);
    assert_eq!(account.is_active(), true);

    assert_eq!(account.available(), TxAmount::zero());
    assert_eq!(account.held(), TxAmount::new(10000));
    assert_eq!(account.total(), TxAmount::new(10000));
}

#[test]
fn account_chargeback() {
    let mut account = setup_account(TxAmount::new(10000));

    let dispute = LedgerItem { client_id: 1, tx_id: 1, action: LedgerAction::Dispute };

    account.process(dispute).unwrap();

    let chargeback = LedgerItem { client_id: 1, tx_id: 1, action: LedgerAction::Chargeback };

    account.process(chargeback).unwrap();

    assert_eq!(account.is_locked(), true);
    assert_eq!(account.is_active(), false);

    assert_eq!(account.available(), TxAmount::zero());
    assert_eq!(account.held(), TxAmount::zero());
    assert_eq!(account.total(), TxAmount::zero());
}

#[test]
fn account_resolve() {
    let mut account = setup_account(TxAmount::new(10000));

    let dispute = LedgerItem { client_id: 1, tx_id: 1, action: LedgerAction::Dispute };

    account.process(dispute).unwrap();

    let resolve = LedgerItem { client_id: 1, tx_id: 1, action: LedgerAction::Resolve };

    account.process(resolve).unwrap();

    assert_eq!(account.is_locked(), false);
    assert_eq!(account.is_active(), true);

    assert_eq!(account.available(), TxAmount::new(10000));
    assert_eq!(account.held(), TxAmount::zero());
    assert_eq!(account.total(), TxAmount::new(10000));
}

#[test]
fn overdraw() {
    let mut account = setup_account(TxAmount::new(10000));

    let withdrawal = LedgerItem {
        client_id: 1,
        tx_id: 2,
        action: LedgerAction::Withdrawal(TxAmount::new(10001)),
    };

    assert_eq!(Err(ProcessorError::InsufficientFunds(1, 2)), account.process(withdrawal));

    assert_eq!(account.is_locked(), false);
    assert_eq!(account.is_active(), true);

    assert_eq!(account.available(), TxAmount::new(10000));
    assert_eq!(account.held(), TxAmount::zero());
    assert_eq!(account.total(), TxAmount::new(10000));
}

#[test]
fn small_scenario() {
    let items = [
        LedgerItem { client_id: 1, tx_id: 1, action: LedgerAction::Deposit(TxAmount::new(100)) },
        LedgerItem { client_id: 1, tx_id: 2, action: LedgerAction::Deposit(TxAmount::new(1000)) },
        LedgerItem {
            client_id: 1,
            tx_id: 3,
            action: LedgerAction::Withdrawal(TxAmount::new(100)),
        },
        LedgerItem { client_id: 1, tx_id: 4, action: LedgerAction::Withdrawal(TxAmount::new(10)) },
    ];

    let mut account = Account::new();

    for item in items {
        account.process(item).unwrap();
    }

    assert_eq!(account.is_locked(), false);
    assert_eq!(account.is_active(), true);

    assert_eq!(account.available(), TxAmount::new(990));
    assert_eq!(account.held(), TxAmount::zero());
    assert_eq!(account.total(), TxAmount::new(990));

    account
        .process(LedgerItem { client_id: 1, tx_id: 2, action: LedgerAction::Dispute })
        .unwrap();

    assert_eq!(account.is_locked(), false);
    assert_eq!(account.is_active(), true);

    assert_eq!(account.available(), TxAmount::new(-10));
    assert_eq!(account.held(), TxAmount::new(1000));
    assert_eq!(account.total(), TxAmount::new(990));

    assert_eq!(
        Err(ProcessorError::InsufficientFunds(1, 5)),
        account.process(LedgerItem {
            client_id: 1,
            tx_id: 5,
            action: LedgerAction::Withdrawal(TxAmount::new(1)),
        })
    );

    assert_eq!(account.is_locked(), false);
    assert_eq!(account.is_active(), true);

    assert_eq!(account.available(), TxAmount::new(-10));
    assert_eq!(account.held(), TxAmount::new(1000));
    assert_eq!(account.total(), TxAmount::new(990));

    assert_eq!(
        Ok(()),
        account.process(LedgerItem {
            client_id: 1,
            tx_id: 6,
            action: LedgerAction::Deposit(TxAmount::new(1000)),
        })
    );

    assert_eq!(account.is_locked(), false);
    assert_eq!(account.is_active(), true);

    assert_eq!(account.available(), TxAmount::new(990));
    assert_eq!(account.held(), TxAmount::new(1000));
    assert_eq!(account.total(), TxAmount::new(1990));

    assert_eq!(
        Ok(()),
        account.process(LedgerItem {
            client_id: 1,
            tx_id: 7,
            action: LedgerAction::Withdrawal(TxAmount::new(990)),
        })
    );

    assert_eq!(account.is_locked(), false);
    assert_eq!(account.is_active(), true);

    assert_eq!(account.available(), TxAmount::zero());
    assert_eq!(account.held(), TxAmount::new(1000));
    assert_eq!(account.total(), TxAmount::new(1000));

    assert_eq!(
        Ok(()),
        account.process(LedgerItem { client_id: 1, tx_id: 2, action: LedgerAction::Resolve })
    );

    assert_eq!(account.is_locked(), false);
    assert_eq!(account.is_active(), true);

    assert_eq!(account.available(), TxAmount::new(1000));
    assert_eq!(account.held(), TxAmount::zero());
    assert_eq!(account.total(), TxAmount::new(1000));
}
