use ledger::processor::parse_line;
use ledger::tx_amount::TxAmount;
use ledger::LedgerAction;

#[test]
fn processor_deposit() {
    let tx = parse_line("deposit, 1, 1, 1.10").unwrap();

    assert_eq!(tx.client_id, 1);
    assert_eq!(tx.tx_id, 1);
    assert_eq!(tx.action, LedgerAction::Deposit(TxAmount::new(11000)));
}

#[test]
fn processor_withdrawal() {
    let tx = parse_line("withdrawal, 1, 1, 1.10").unwrap();

    assert_eq!(tx.client_id, 1);
    assert_eq!(tx.tx_id, 1);
    assert_eq!(tx.action, LedgerAction::Withdrawal(TxAmount::new(11000)));
}

#[test]
fn processor_dispute() {
    let tx = parse_line("dispute, 1, 1").unwrap();

    assert_eq!(tx.client_id, 1);
    assert_eq!(tx.tx_id, 1);
    assert_eq!(tx.action, LedgerAction::Dispute);
}

#[test]
fn processor_resolve() {
    let tx = parse_line("resolve, 1, 1").unwrap();

    assert_eq!(tx.client_id, 1);
    assert_eq!(tx.tx_id, 1);
    assert_eq!(tx.action, LedgerAction::Resolve);
}

#[test]
fn processor_chargeback() {
    let tx = parse_line("chargeback, 1, 1").unwrap();

    assert_eq!(tx.client_id, 1);
    assert_eq!(tx.tx_id, 1);
    assert_eq!(tx.action, LedgerAction::Chargeback);
}

#[test]
fn processor_rejects_malformed() {
    assert!(parse_line("").is_err());
    assert!(parse_line("refund, 1, 1, 1.00").is_err());
    assert!(parse_line("deposit 1 1 1.00").is_err());
    assert!(parse_line("deposit, 1, 1").is_err());
    assert!(parse_line("deposit, 1, 1, 1").is_err());
    assert!(parse_line("deposit, 1, 1, .5").is_err());
    assert!(parse_line("deposit, 1, 1, 1.00000").is_err());
    assert!(parse_line("deposit, 70000, 1, 1.0").is_err());
    assert!(parse_line("deposit, 1, 5000000000, 1.0").is_err());
    assert!(parse_line("deposit, 1, 1, 99999999999999999999.0").is_err());
}

#[test]
fn processor_accepts_flexible_whitespace() {
    let tx = parse_line("deposit,   1,\t2, 0.5").unwrap();

    assert_eq!(tx.client_id, 1);
    assert_eq!(tx.tx_id, 2);
    assert_eq!(tx.action, LedgerAction::Deposit(TxAmount::new(5000)));
}

#[test]
fn processor_ignores_trailing_input() {
    let tx = parse_line("resolve, 7, 9, trailing junk").unwrap();

    assert_eq!(tx.client_id, 7);
    assert_eq!(tx.tx_id, 9);
    assert_eq!(tx.action, LedgerAction::Resolve);
}
