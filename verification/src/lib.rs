//! A small ledger engine: fixed-point amounts, a per-transaction dispute
//! state machine, per-client accounts, a client registry, and a pure
//! routing rule for fanning clients out over a power-of-two number of
//! shards.
//!
//! Balances are updated only through audited deltas, so the reported
//! `total` is always `available + held` by construction.

use vstd::prelude::*;

pub mod account;
pub mod account_manager;
pub mod digits;
pub mod error;
pub mod fp_isize;
pub mod processor;
pub mod transaction;
pub mod tx_amount;

use crate::tx_amount::TxAmount;

verus! {

/// Identifies one client; each client owns one account.
pub type ClientID = u16;

/// Identifies one transaction within an account; ids are never reused.
pub type TxID = u32;

/// What a single ledger event asks for.
#[derive(Clone, Copy, PartialEq, Eq, Debug)]
pub enum LedgerAction {
    /// Add `amount` to the client's available funds.
    Deposit(TxAmount),
    /// Remove `amount` from the client's available funds.
    Withdrawal(TxAmount),
    /// Contest an earlier transaction, moving its amount to held funds.
    Dispute,
    /// Settle a dispute in the transaction's favour, releasing held funds.
    Resolve,
    /// Settle a dispute against the transaction, withdrawing held funds
    /// and locking the account.
    Chargeback,
}

/// One ledger event: an action on a (client, transaction) pair.
#[derive(Clone, Copy, PartialEq, Eq, Debug)]
pub struct LedgerItem {
    /// The client whose account the event addresses.
    pub client_id: ClientID,
    /// The transaction the event creates or refers back to.
    pub tx_id: TxID,
    /// What the event asks for.
    pub action: LedgerAction,
}

} // verus!
