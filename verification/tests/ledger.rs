use ledger::account::Account;
use ledger::account_manager::{route, shard_mask, AccountManager};
use ledger::error::ProcessorError;
use ledger::transaction::TransactionState;
use ledger::tx_amount::TxAmount;
use ledger::{ClientID, LedgerAction, LedgerItem};

fn deposit(client_id: ClientID, tx_id: u32, amount: isize) -> LedgerItem {
    LedgerItem { client_id, tx_id, action: LedgerAction::Deposit(TxAmount::new(amount)) }
}

fn withdrawal(client_id: ClientID, tx_id: u32, amount: isize) -> LedgerItem {
    LedgerItem { client_id, tx_id, action: LedgerAction::Withdrawal(TxAmount::new(amount)) }
}

#[test]
fn total_is_available_plus_held_after_every_event() {
    let mut account = Account::new();
    let events = [
        deposit(1, 1, 50_000),
        deposit(1, 2, 25_000),
        withdrawal(1, 3, 10_000),
        LedgerItem { client_id: 1, tx_id: 2, action: LedgerAction::Dispute },
        withdrawal(1, 4, 5_000),
        LedgerItem { client_id: 1, tx_id: 2, action: LedgerAction::Resolve },
    ];
    for event in events {
        let _ = account.process(event);
        let expected = account.available().scaled() + account.held().scaled();
        assert_eq!(account.total().scaled(), expected);
    }
}

#[test]
fn negative_amounts_are_rejected() {
    let mut account = Account::new();
    assert_eq!(
        Err(ProcessorError::NegativeDeposit(1, 1)),
        account.process(deposit(1, 1, -5))
    );
    assert_eq!(
        Err(ProcessorError::NegativeWithdrawal(1, 2)),
        account.process(withdrawal(1, 2, -5))
    );
    assert_eq!(account.available(), TxAmount::zero());
    assert_eq!(account.held(), TxAmount::zero());
}

#[test]
fn missing_transaction_is_rejected() {
    let mut account = Account::new();
    assert_eq!(
        Err(ProcessorError::MissingTransaction(1, 9, LedgerAction::Dispute)),
        account.process(LedgerItem { client_id: 1, tx_id: 9, action: LedgerAction::Dispute })
    );
    assert_eq!(
        Err(ProcessorError::MissingTransaction(1, 9, LedgerAction::Resolve)),
        account.process(LedgerItem { client_id: 1, tx_id: 9, action: LedgerAction::Resolve })
    );
    assert_eq!(
        Err(ProcessorError::MissingTransaction(1, 9, LedgerAction::Chargeback)),
        account.process(LedgerItem { client_id: 1, tx_id: 9, action: LedgerAction::Chargeback })
    );
}

#[test]
fn duplicate_transaction_is_rejected() {
    let mut account = Account::new();
    account.process(deposit(1, 1, 100)).unwrap();
    assert_eq!(
        Err(ProcessorError::DuplicateTransaction(1, 1)),
        account.process(deposit(1, 1, 100))
    );
    assert_eq!(
        Err(ProcessorError::DuplicateTransaction(1, 1)),
        account.process(withdrawal(1, 1, 100))
    );
    assert_eq!(account.available(), TxAmount::new(100));
}

#[test]
fn invalid_state_transitions_are_rejected() {
    let mut account = Account::new();
    account.process(deposit(1, 1, 100)).unwrap();
    assert_eq!(
        Err(ProcessorError::InvalidTransactionStateTransition(
            1,
            1,
            TransactionState::New,
            TransactionState::Resolved,
        )),
        account.process(LedgerItem { client_id: 1, tx_id: 1, action: LedgerAction::Resolve })
    );
    account
        .process(LedgerItem { client_id: 1, tx_id: 1, action: LedgerAction::Dispute })
        .unwrap();
    assert_eq!(
        Err(ProcessorError::InvalidTransactionStateTransition(
            1,
            1,
            TransactionState::Disputed,
            TransactionState::Disputed,
        )),
        account.process(LedgerItem { client_id: 1, tx_id: 1, action: LedgerAction::Dispute })
    );
    account
        .process(LedgerItem { client_id: 1, tx_id: 1, action: LedgerAction::Resolve })
        .unwrap();
    assert_eq!(
        Err(ProcessorError::InvalidTransactionStateTransition(
            1,
            1,
            TransactionState::Resolved,
            TransactionState::Disputed,
        )),
        account.process(LedgerItem { client_id: 1, tx_id: 1, action: LedgerAction::Dispute })
    );
}

#[test]
fn locked_account_rejects_everything() {
    let mut account = Account::new();
    account.process(deposit(1, 1, 100)).unwrap();
    account
        .process(LedgerItem { client_id: 1, tx_id: 1, action: LedgerAction::Dispute })
        .unwrap();
    account
        .process(LedgerItem { client_id: 1, tx_id: 1, action: LedgerAction::Chargeback })
        .unwrap();
    assert!(account.is_locked());
    assert_eq!(
        Err(ProcessorError::LockedAccount(1, 2)),
        account.process(deposit(1, 2, 100))
    );
    assert_eq!(
        Err(ProcessorError::LockedAccount(1, 1)),
        account.process(LedgerItem { client_id: 1, tx_id: 1, action: LedgerAction::Resolve })
    );
}

#[test]
fn dispute_on_withdrawal_reserves_a_negative_amount() {
    // A withdrawal is stored negated, so disputing it credits the
    // available balance and drives the held balance below zero; the
    // total is unchanged by the dispute.
    let mut account = Account::new();
    account.process(deposit(1, 1, 100)).unwrap();
    account.process(withdrawal(1, 2, 40)).unwrap();
    account
        .process(LedgerItem { client_id: 1, tx_id: 2, action: LedgerAction::Dispute })
        .unwrap();
    assert_eq!(account.available(), TxAmount::new(100));
    assert_eq!(account.held(), TxAmount::new(-40));
    assert_eq!(account.total(), TxAmount::new(60));
}

#[test]
fn fits_refuses_balance_overflow() {
    let mut account = Account::new();
    account.process(deposit(1, 1, isize::MAX)).unwrap();
    assert!(!account.fits(&deposit(1, 2, 1)));
    assert!(account.fits(&withdrawal(1, 2, 1)));

    let mut manager = AccountManager::new();
    manager.process(deposit(1, 1, isize::MAX)).unwrap();
    assert!(!manager.fits(&deposit(1, 2, 1)));
    assert!(manager.fits(&deposit(2, 2, 1)));
}

#[test]
fn registry_creates_account_only_on_success() {
    let mut manager = AccountManager::new();
    // The first event for the client fails, so no account is recorded.
    assert!(manager
        .process(LedgerItem { client_id: 3, tx_id: 1, action: LedgerAction::Dispute })
        .is_err());
    assert_eq!(manager.dump_records().len(), 0);
    manager.process(deposit(3, 1, 100)).unwrap();
    assert_eq!(manager.dump_records().len(), 1);
}

#[test]
fn dump_is_sorted_by_client_id() {
    let mut manager = AccountManager::new();
    for client in [9u16, 2, 7, 4, 1] {
        manager.process(deposit(client, client as u32, 100)).unwrap();
    }
    let records = manager.dump_records();
    assert_eq!(records.len(), 5);
    let clients: Vec<u16> = records.iter().map(|r| r.0).collect();
    assert_eq!(clients, vec![1, 2, 4, 7, 9]);
    for record in records {
        assert_eq!(record.1, TxAmount::new(100));
        assert_eq!(record.2, TxAmount::zero());
        assert_eq!(record.3, TxAmount::new(100));
        assert_eq!(record.4, false);
    }
}

#[test]
fn routing_is_deterministic_and_masks_low_bits() {
    let mask = shard_mask(4).unwrap();
    assert_eq!(mask, 3);
    for client in 0u16..64 {
        let first = route(client, mask);
        assert_eq!(first, (client % 4) as usize);
        assert_eq!(route(client, mask), first);
    }
    assert_eq!(shard_mask(1).unwrap(), 0);
    assert_eq!(shard_mask(65536).unwrap(), 65535);
    assert_eq!(shard_mask(0), Err(ProcessorError::InvalidShardCount));
    assert_eq!(shard_mask(3), Err(ProcessorError::InvalidShardCount));
    assert_eq!(shard_mask(12), Err(ProcessorError::InvalidShardCount));
}

#[test]
fn end_to_end_dispute_chargeback() {
    let mut manager = AccountManager::new();
    manager.process(deposit(1, 1, 1_000_000)).unwrap();
    manager.process(deposit(1, 2, 100_000)).unwrap();
    manager
        .process(LedgerItem { client_id: 1, tx_id: 2, action: LedgerAction::Dispute })
        .unwrap();

    let records = manager.dump_records();
    assert_eq!(records.len(), 1);
    assert_eq!(records[0].0, 1);
    assert_eq!(records[0].1.to_decimal_string(), "100.0000");
    assert_eq!(records[0].2.to_decimal_string(), "10.0000");
    assert_eq!(records[0].3.to_decimal_string(), "110.0000");
    assert_eq!(records[0].4, false);

    manager
        .process(LedgerItem { client_id: 1, tx_id: 2, action: LedgerAction::Chargeback })
        .unwrap();

    let records = manager.dump_records();
    assert_eq!(records[0].1.to_decimal_string(), "100.0000");
    assert_eq!(records[0].2.to_decimal_string(), "0.0000");
    assert_eq!(records[0].3.to_decimal_string(), "100.0000");
    assert_eq!(records[0].4, true);

    assert_eq!(
        Err(ProcessorError::LockedAccount(1, 3)),
        manager.process(deposit(1, 3, 50_000))
    );
}

fn round_robin_events(clients: u16, per_client: u32) -> Vec<LedgerItem> {
    let mut events = Vec::new();
    for round in 0..per_client {
        for client in 1..=clients {
            let tx_id = round * clients as u32 + client as u32;
            let event = if round % 3 == 2 {
                withdrawal(client, tx_id, 1)
            } else {
                deposit(client, tx_id, (round % 7 + 1) as isize)
            };
            events.push(event);
        }
    }
    events
}

#[test]
fn sharded_processing_matches_sequential() {
    let clients: u16 = 8;
    let events = round_robin_events(clients, 1000);

    let mut sequential = AccountManager::new();
    for event in &events {
        let _ = sequential.process(*event);
    }

    let mask = shard_mask(4).unwrap();
    let mut shards: Vec<AccountManager> =
        (0..4).map(|_| AccountManager::new()).collect();
    for event in &events {
        let shard = route(event.client_id, mask);
        let _ = shards[shard].process(*event);
    }

    let mut sharded_records = Vec::new();
    for shard in &shards {
        sharded_records.extend(shard.dump_records());
    }
    sharded_records.sort_by_key(|r| r.0);

    assert_eq!(sequential.dump_records(), sharded_records);
}

#[test]
fn concurrent_shards_match_sequential() {
    let clients: u16 = 8;
    let events = round_robin_events(clients, 1000);

    let mut sequential = AccountManager::new();
    for event in &events {
        let _ = sequential.process(*event);
    }
    let expected = sequential.dump_records();

    let runtime = tokio::runtime::Builder::new_multi_thread()
        .worker_threads(4)
        .build()
        .unwrap();

    let actual = runtime.block_on(async {
        let mask = shard_mask(4).unwrap();
        let mut senders = Vec::new();
        let mut handles = Vec::new();
        for _ in 0..4 {
            let (sender, mut receiver) =
                tokio::sync::mpsc::channel::<LedgerItem>(16);
            senders.push(sender);
            handles.push(tokio::spawn(async move {
                let mut manager = AccountManager::new();
                while let Some(event) = receiver.recv().await {
                    let _ = manager.process(event);
                }
                manager.dump_records()
            }));
        }
        for event in &events {
            let shard = route(event.client_id, mask);
            senders[shard].send(*event).await.unwrap();
        }
        drop(senders);
        let mut records = Vec::new();
        for handle in handles {
            records.extend(handle.await.unwrap());
        }
        records.sort_by_key(|r| r.0);
        records
    });

    assert_eq!(expected, actual);
}
