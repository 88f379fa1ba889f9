//! The per-transaction state machine.
//!
//! A transaction is created by a deposit or a withdrawal and then moves
//! `New -> Disputed -> {Resolved, Chargeback}`; the two final states are
//! terminal.  Every transition yields a [`TransactionDelta`], the exact
//! adjustment the owning account must apply to its balances.

use vstd::prelude::*;

use crate::tx_amount::TxAmount;

verus! {

/// The effect of one transaction operation on the owning account:
/// how much to add to the available and to the held balance.
pub struct TransactionDelta {
    /// Signed change of the available balance.
    pub available: TxAmount,
    /// Signed change of the held balance.
    pub held: TxAmount,
}

/// Where a transaction stands in its dispute lifecycle.
#[derive(Clone, Copy, PartialEq, Eq, Structural, Debug)]
pub enum TransactionState {
    /// Just created; a dispute may still be raised.
    New,
    /// Under dispute; its amount is held.
    Disputed,
    /// Dispute settled in the transaction's favour; terminal.
    Resolved,
    /// Dispute settled against the transaction; terminal.
    Chargeback,
}

/// Mathematical content of a [`Transaction`]: its signed stored amount
/// and its lifecycle state.
pub ghost struct TxRec {
    /// Stored amount: positive for a deposit, negated for a withdrawal.
    pub amount: int,
    /// Lifecycle state.
    pub state: TransactionState,
}

/// One transaction owned by an account: its signed stored amount
/// (deposits positive, withdrawals negated) and its lifecycle state.
#[derive(Clone, Copy, PartialEq, Eq, Debug)]
pub struct Transaction {
    amount: TxAmount,
    state: TransactionState,
}

impl View for Transaction {
    type V = TxRec;

    closed spec fn view(&self) -> TxRec {
        TxRec { amount: self.amount@, state: self.state }
    }
}

/// Why a transaction operation was refused.
#[derive(Clone, Copy, PartialEq, Eq, Structural, Debug)]
pub enum TransactionError {
    /// A deposit carried an amount below zero.
    NegativeDeposit,
    /// A withdrawal carried an amount below zero.
    NegativeWithdrawal,
    /// The transaction's state (first field) does not allow the requested
    /// transition to the second field.
    InvalidTransactionStateTransition(TransactionState, TransactionState),
}

impl Transaction {
    /// The signed stored amount.
    pub fn amount(&self) -> (a: TxAmount)
        ensures
            a@ == self@.amount,
    {
        self.amount
    }

    /// The lifecycle state.
    pub fn state(&self) -> (s: TransactionState)
        ensures
            s == self@.state,
    {
        self.state
    }

    /// Creates the transaction recorded for a deposit of `amount`,
    /// rejecting negative amounts; the delta credits `amount` to the
    /// available balance.
    pub fn deposit(amount: TxAmount) -> (r: Result<(Self, TransactionDelta), TransactionError>)
        ensures
            match r {
                Ok((t, d)) => {
                    &&& amount@ >= 0
                    &&& t@ == (TxRec { amount: amount@, state: TransactionState::New })
                    &&& d.available@ == amount@
                    &&& d.held@ == 0
                },
                Err(e) => amount@ < 0 && e == TransactionError::NegativeDeposit,
            },
    {
        if amount.is_negative() {
            Err(TransactionError::NegativeDeposit)
        } else {
            Ok(
                (
                    Transaction { amount, state: TransactionState::New },
                    TransactionDelta { available: amount, held: TxAmount::zero() },
                ),
            )
        }
    }

    /// Creates the transaction recorded for a withdrawal of `amount`,
    /// rejecting negative amounts.  The amount is stored negated, and the
    /// delta debits `amount` from the available balance; checking that the
    /// funds suffice is the caller's duty, not this function's.
    pub fn withdraw(amount: TxAmount) -> (r: Result<(Self, TransactionDelta), TransactionError>)
        ensures
            match r {
                Ok((t, d)) => {
                    &&& amount@ >= 0
                    &&& t@ == (TxRec { amount: -amount@, state: TransactionState::New })
                    &&& d.available@ == -amount@
                    &&& d.held@ == 0
                },
                Err(e) => amount@ < 0 && e == TransactionError::NegativeWithdrawal,
            },
    {
        if amount.is_negative() {
            Err(TransactionError::NegativeWithdrawal)
        } else {
            let stored = amount.neg();
            Ok(
                (
                    Transaction { amount: stored, state: TransactionState::New },
                    TransactionDelta { available: stored, held: TxAmount::zero() },
                ),
            )
        }
    }

    /// Raises a dispute: allowed only from `New`.  The delta reserves the
    /// stored amount, moving it from available to held unconditionally.
    pub fn dispute(&mut self) -> (r: Result<TransactionDelta, TransactionError>)
        requires
            old(self)@.amount != isize::MIN,
        ensures
            match r {
                Ok(d) => {
                    &&& old(self)@.state is New
                    &&& final(self)@ == (TxRec {
                        amount: old(self)@.amount,
                        state: TransactionState::Disputed,
                    })
                    &&& d.available@ == -old(self)@.amount
                    &&& d.held@ == old(self)@.amount
                },
                Err(e) => {
                    &&& !(old(self)@.state is New)
                    &&& *final(self) == *old(self)
                    &&& e == TransactionError::InvalidTransactionStateTransition(
                        old(self)@.state,
                        TransactionState::Disputed,
                    )
                },
            },
    {
        if matches!(self.state, TransactionState::New) {
            self.state = TransactionState::Disputed;
            Ok(TransactionDelta { available: self.amount.neg(), held: self.amount })
        } else {
            Err(
                TransactionError::InvalidTransactionStateTransition(
                    self.state,
                    TransactionState::Disputed,
                ),
            )
        }
    }

    /// Resolves a dispute: allowed only from `Disputed`.  The delta
    /// releases the held amount back to available unconditionally.
    pub fn resolve(&mut self) -> (r: Result<TransactionDelta, TransactionError>)
        requires
            old(self)@.amount != isize::MIN,
        ensures
            match r {
                Ok(d) => {
                    &&& old(self)@.state is Disputed
                    &&& final(self)@ == (TxRec {
                        amount: old(self)@.amount,
                        state: TransactionState::Resolved,
                    })
                    &&& d.available@ == old(self)@.amount
                    &&& d.held@ == -old(self)@.amount
                },
                Err(e) => {
                    &&& !(old(self)@.state is Disputed)
                    &&& *final(self) == *old(self)
                    &&& e == TransactionError::InvalidTransactionStateTransition(
                        old(self)@.state,
                        TransactionState::Resolved,
                    )
                },
            },
    {
        if matches!(self.state, TransactionState::Disputed) {
            self.state = TransactionState::Resolved;
            Ok(TransactionDelta { available: self.amount, held: self.amount.neg() })
        } else {
            Err(
                TransactionError::InvalidTransactionStateTransition(
                    self.state,
                    TransactionState::Resolved,
                ),
            )
        }
    }

    /// Charges the transaction back: allowed only from `Disputed`.  The
    /// delta withdraws the held amount unconditionally; locking the
    /// account is the caller's duty.
    pub fn chargeback(&mut self) -> (r: Result<TransactionDelta, TransactionError>)
        requires
            old(self)@.amount != isize::MIN,
        ensures
            match r {
                Ok(d) => {
                    &&& old(self)@.state is Disputed
                    &&& final(self)@ == (TxRec {
                        amount: old(self)@.amount,
                        state: TransactionState::Chargeback,
                    })
                    &&& d.available@ == 0
                    &&& d.held@ == -old(self)@.amount
                },
                Err(e) => {
                    &&& !(old(self)@.state is Disputed)
                    &&& *final(self) == *old(self)
                    &&& e == TransactionError::InvalidTransactionStateTransition(
                        old(self)@.state,
                        TransactionState::Chargeback,
                    )
                },
            },
    {
        if matches!(self.state, TransactionState::Disputed) {
            self.state = TransactionState::Chargeback;
            Ok(TransactionDelta { available: TxAmount::zero(), held: self.amount.neg() })
        } else {
            Err(
                TransactionError::InvalidTransactionStateTransition(
                    self.state,
                    TransactionState::Chargeback,
                ),
            )
        }
    }
}

} // verus!
