//! The event-level error taxonomy.
//!
//! Every variant carries the client and transaction context it arose in.
//! All of these errors are local to one event: processing continues with
//! the next event, except for [`ProcessorError::InvalidShardCount`],
//! which is a fatal configuration error raised before any event runs.

use vstd::prelude::*;

use crate::transaction::{TransactionError, TransactionState};
use crate::{ClientID, LedgerAction, LedgerItem, TxID};

verus! {

/// Why one ledger event (or, for `InvalidShardCount`, the processor
/// configuration) was refused.
#[derive(Clone, Copy, PartialEq, Eq, Debug)]
pub enum ProcessorError {
    /// A deposit carried an amount below zero.
    NegativeDeposit(ClientID, TxID),
    /// A withdrawal carried an amount below zero.
    NegativeWithdrawal(ClientID, TxID),
    /// The transaction's state (third field) does not allow the requested
    /// transition to the fourth field.
    InvalidTransactionStateTransition(ClientID, TxID, TransactionState, TransactionState),
    /// A deposit or withdrawal reused an existing transaction id.
    DuplicateTransaction(ClientID, TxID),
    /// A dispute, resolve or chargeback referred to an unknown
    /// transaction id.
    MissingTransaction(ClientID, TxID, LedgerAction),
    /// A withdrawal would have driven the available balance below zero.
    InsufficientFunds(ClientID, TxID),
    /// The account was locked by an earlier chargeback.
    LockedAccount(ClientID, TxID),
    /// The configured shard count is not a supported power of two.
    InvalidShardCount,
}

impl ProcessorError {
    /// The event-level error corresponding to a transaction-level error
    /// raised while handling `item`.
    pub open spec fn spec_from_transaction_error(
        item: LedgerItem,
        err: TransactionError,
    ) -> ProcessorError {
        match err {
            TransactionError::NegativeDeposit => ProcessorError::NegativeDeposit(
                item.client_id,
                item.tx_id,
            ),
            TransactionError::NegativeWithdrawal => ProcessorError::NegativeWithdrawal(
                item.client_id,
                item.tx_id,
            ),
            TransactionError::InvalidTransactionStateTransition(src, dst) => {
                ProcessorError::InvalidTransactionStateTransition(
                    item.client_id,
                    item.tx_id,
                    src,
                    dst,
                )
            },
        }
    }

    /// Attaches the client and transaction context of `item` to a
    /// transaction-level error.
    pub fn from_transaction_error(item: &LedgerItem, err: TransactionError) -> (r: ProcessorError)
        ensures
            r == Self::spec_from_transaction_error(*item, err),
    {
        match err {
            TransactionError::NegativeDeposit => ProcessorError::NegativeDeposit(
                item.client_id,
                item.tx_id,
            ),
            TransactionError::NegativeWithdrawal => ProcessorError::NegativeWithdrawal(
                item.client_id,
                item.tx_id,
            ),
            TransactionError::InvalidTransactionStateTransition(src, dst) => {
                ProcessorError::InvalidTransactionStateTransition(
                    item.client_id,
                    item.tx_id,
                    src,
                    dst,
                )
            },
        }
    }
}

} // verus!
