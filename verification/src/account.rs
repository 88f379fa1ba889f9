//! Per-client accounts.
//!
//! An account holds an available and a held balance and the map of every
//! transaction it has seen.  [`Account::process`] applies one ledger
//! event through the transaction state machine; its whole effect is
//! captured by the pure transition function [`account_step`], which the
//! contracts and the laws below are stated against.

use vstd::prelude::*;

use std::collections::BTreeMap;

use crate::error::ProcessorError;
use crate::transaction::{Transaction, TransactionDelta, TransactionState, TxRec};
use crate::tx_amount::{amount_in_range, TxAmount};
use crate::{LedgerAction, LedgerItem, TxID};

verus! {

broadcast use {vstd::std_specs::btree::group_btree_axioms, vstd::laws_cmp::group_laws_cmp, crate::fp_isize::lemma_fp_view_in_range};

/// Whether the account still accepts events.
#[derive(Clone, Copy, PartialEq, Eq, Structural, Debug)]
enum AccountState {
    Active,
    Locked,
}

/// Mathematical content of an [`Account`]: its lock status, both
/// balances, and the recorded transactions.
pub ghost struct AccountView {
    /// Whether a chargeback has locked the account.
    pub locked: bool,
    /// Liquid balance.
    pub available: int,
    /// Balance reserved by open disputes.
    pub held: int,
    /// Every transaction the account has accepted, by id.
    pub txs: Map<TxID, TxRec>,
}

impl AccountView {
    /// The state of a freshly created account.
    pub open spec fn initial() -> AccountView {
        AccountView { locked: false, available: 0, held: 0, txs: Map::empty() }
    }

    /// Both balances and their sum stay in the machine integer range.
    pub open spec fn in_range(self) -> bool {
        &&& amount_in_range(self.available)
        &&& amount_in_range(self.held)
        &&& amount_in_range(self.available + self.held)
    }

    /// Well-formedness: balances are representable and every stored
    /// transaction amount can be negated without leaving the range.
    pub open spec fn inv(self) -> bool {
        &&& self.in_range()
        &&& forall|t: TxID| #[trigger]
            self.txs.contains_key(t) ==> -(isize::MAX as int) <= self.txs[t].amount <= (
            isize::MAX as int)
    }
}

/// The complete effect of one ledger event on one account: either the
/// account state after the event, or the error that refuses it (in which
/// case the account is unchanged).
pub open spec fn account_step(pre: AccountView, item: LedgerItem) -> Result<
    AccountView,
    ProcessorError,
> {
    if pre.locked {
        Err(ProcessorError::LockedAccount(item.client_id, item.tx_id))
    } else if pre.txs.contains_key(item.tx_id) {
        let t = pre.txs[item.tx_id];
        match item.action {
            LedgerAction::Dispute => if t.state is New {
                Ok(
                    AccountView {
                        locked: false,
                        available: pre.available - t.amount,
                        held: pre.held + t.amount,
                        txs: pre.txs.insert(
                            item.tx_id,
                            TxRec { amount: t.amount, state: TransactionState::Disputed },
                        ),
                    },
                )
            } else {
                Err(
                    ProcessorError::InvalidTransactionStateTransition(
                        item.client_id,
                        item.tx_id,
                        t.state,
                        TransactionState::Disputed,
                    ),
                )
            },
            LedgerAction::Resolve => if t.state is Disputed {
                Ok(
                    AccountView {
                        locked: false,
                        available: pre.available + t.amount,
                        held: pre.held - t.amount,
                        txs: pre.txs.insert(
                            item.tx_id,
                            TxRec { amount: t.amount, state: TransactionState::Resolved },
                        ),
                    },
                )
            } else {
                Err(
                    ProcessorError::InvalidTransactionStateTransition(
                        item.client_id,
                        item.tx_id,
                        t.state,
                        TransactionState::Resolved,
                    ),
                )
            },
            LedgerAction::Chargeback => if t.state is Disputed {
                Ok(
                    AccountView {
                        locked: true,
                        available: pre.available,
                        held: pre.held - t.amount,
                        txs: pre.txs.insert(
                            item.tx_id,
                            TxRec { amount: t.amount, state: TransactionState::Chargeback },
                        ),
                    },
                )
            } else {
                Err(
                    ProcessorError::InvalidTransactionStateTransition(
                        item.client_id,
                        item.tx_id,
                        t.state,
                        TransactionState::Chargeback,
                    ),
                )
            },
            _ => Err(ProcessorError::DuplicateTransaction(item.client_id, item.tx_id)),
        }
    } else {
        match item.action {
            LedgerAction::Deposit(amount) => if amount@ < 0 {
                Err(ProcessorError::NegativeDeposit(item.client_id, item.tx_id))
            } else {
                Ok(
                    AccountView {
                        locked: false,
                        available: pre.available + amount@,
                        held: pre.held,
                        txs: pre.txs.insert(
                            item.tx_id,
                            TxRec { amount: amount@, state: TransactionState::New },
                        ),
                    },
                )
            },
            LedgerAction::Withdrawal(amount) => if amount@ < 0 {
                Err(ProcessorError::NegativeWithdrawal(item.client_id, item.tx_id))
            } else if pre.available - amount@ < 0 {
                Err(ProcessorError::InsufficientFunds(item.client_id, item.tx_id))
            } else {
                Ok(
                    AccountView {
                        locked: false,
                        available: pre.available - amount@,
                        held: pre.held,
                        txs: pre.txs.insert(
                            item.tx_id,
                            TxRec { amount: -amount@, state: TransactionState::New },
                        ),
                    },
                )
            },
            _ => Err(ProcessorError::MissingTransaction(item.client_id, item.tx_id, item.action)),
        }
    }
}

/// Whether applying `item` to `pre` keeps the balances representable;
/// refused events impose no condition, since they change nothing.
pub open spec fn step_in_range(pre: AccountView, item: LedgerItem) -> bool {
    match account_step(pre, item) {
        Ok(post) => post.in_range(),
        Err(_) => true,
    }
}

/// One client's ledger: balances, lock status, and all accepted
/// transactions.
pub struct Account {
    state: AccountState,
    available: TxAmount,
    held: TxAmount,
    transactions: BTreeMap<TxID, Transaction>,
}

impl View for Account {
    type V = AccountView;

    closed spec fn view(&self) -> AccountView {
        AccountView {
            locked: self.state is Locked,
            available: self.available@,
            held: self.held@,
            txs: self.transactions@.map_values(|t: Transaction| t@),
        }
    }
}

proof fn lemma_map_values_insert(m: Map<TxID, Transaction>, k: TxID, v: Transaction)
    ensures
        m.insert(k, v).map_values(|t: Transaction| t@) == m.map_values(
            |t: Transaction| t@,
        ).insert(k, v@),
{
    assert(m.insert(k, v).map_values(|t: Transaction| t@) =~= m.map_values(
        |t: Transaction| t@,
    ).insert(k, v@));
}

impl Account {
    /// Whether this account is well formed; established by [`Account::new`]
    /// and preserved by every operation.
    pub open spec fn wf(&self) -> bool {
        self@.inv()
    }

    /// Creates an active account with zero balances and no transactions.
    pub fn new() -> (r: Account)
        ensures
            r@ == AccountView::initial(),
            r.wf(),
    {
        let r = Account {
            state: AccountState::Active,
            available: TxAmount::zero(),
            held: TxAmount::zero(),
            transactions: BTreeMap::new(),
        };
        proof {
            assert(r@.txs =~= AccountView::initial().txs);
        }
        r
    }

    /// Adds the delta to both balances without any funds check.
    fn apply_delta_unchecked(&mut self, delta: TransactionDelta)
        requires
            amount_in_range(old(self)@.available + delta.available@),
            amount_in_range(old(self)@.held + delta.held@),
        ensures
            final(self)@ == (AccountView {
                available: old(self)@.available + delta.available@,
                held: old(self)@.held + delta.held@,
                ..old(self)@
            }),
            final(self).transactions == old(self).transactions,
    {
        self.available = self.available.add(delta.available);
        self.held = self.held.add(delta.held);
    }

    /// Adds the delta only if it leaves the available balance at or above
    /// zero; otherwise reports `InsufficientFunds` and changes nothing.
    fn apply_delta(&mut self, delta: TransactionDelta, item: &LedgerItem) -> (r: Result<
        (),
        ProcessorError,
    >)
        requires
            old(self)@.in_range(),
            delta.held@ == 0,
            -(isize::MAX as int) <= delta.available@ <= 0,
        ensures
            match r {
                Ok(()) => {
                    &&& old(self)@.available + delta.available@ >= 0
                    &&& final(self)@ == (AccountView {
                        available: old(self)@.available + delta.available@,
                        ..old(self)@
                    })
                    &&& final(self).transactions == old(self).transactions
                },
                Err(e) => {
                    &&& old(self)@.available + delta.available@ < 0
                    &&& e == ProcessorError::InsufficientFunds(item.client_id, item.tx_id)
                    &&& *final(self) == *old(self)
                },
            },
    {
        let need = delta.available.neg();
        if self.available.lt(&need) {
            Err(ProcessorError::InsufficientFunds(item.client_id, item.tx_id))
        } else {
            self.apply_delta_unchecked(delta);
            Ok(())
        }
    }

    /// Marks the account locked.
    fn lock(&mut self)
        ensures
            final(self)@ == (AccountView { locked: true, ..old(self)@ }),
            final(self).transactions == old(self).transactions,
    {
        self.state = AccountState::Locked;
    }

    fn process_internal(&mut self, item: LedgerItem) -> (r: Result<(), ProcessorError>)
        requires
            old(self).wf(),
            !old(self)@.locked,
            step_in_range(old(self)@, item),
        ensures
            final(self).wf(),
            match r {
                Ok(()) => account_step(old(self)@, item) == Ok::<AccountView, ProcessorError>(
                    final(self)@,
                ),
                Err(e) => account_step(old(self)@, item) == Err::<AccountView, ProcessorError>(e)
                    && final(self)@ == old(self)@,
            },
    {
        let found = self.transactions.get(&item.tx_id);
        if let Some(t_ref) = found {
            let mut t = *t_ref;
            proof {
                assert(old(self).transactions@.contains_key(item.tx_id));
                assert(old(self)@.txs == old(self).transactions@.map_values(
                    |tr: Transaction| tr@,
                ));
                assert(old(self)@.txs[item.tx_id] == t@);
            }
            let delta = match item.action {
                LedgerAction::Dispute => match t.dispute() {
                    Ok(d) => d,
                    Err(e) => {
                        return Err(ProcessorError::from_transaction_error(&item, e));
                    },
                },
                LedgerAction::Resolve => match t.resolve() {
                    Ok(d) => d,
                    Err(e) => {
                        return Err(ProcessorError::from_transaction_error(&item, e));
                    },
                },
                LedgerAction::Chargeback => match t.chargeback() {
                    Ok(d) => d,
                    Err(e) => {
                        return Err(ProcessorError::from_transaction_error(&item, e));
                    },
                },
                _ => {
                    return Err(
                        ProcessorError::DuplicateTransaction(item.client_id, item.tx_id),
                    );
                },
            };
            if matches!(item.action, LedgerAction::Chargeback) {
                self.lock();
            }
            self.apply_delta_unchecked(delta);
            self.transactions.insert(item.tx_id, t);
            proof {
                lemma_map_values_insert(old(self).transactions@, item.tx_id, t);
            }
            Ok(())
        } else {
            let transaction = match item.action {
                LedgerAction::Deposit(amount) => match Transaction::deposit(amount) {
                    Ok((transaction, delta)) => {
                        self.apply_delta_unchecked(delta);
                        transaction
                    },
                    Err(e) => {
                        return Err(ProcessorError::from_transaction_error(&item, e));
                    },
                },
                LedgerAction::Withdrawal(amount) => match Transaction::withdraw(amount) {
                    Ok((transaction, delta)) => {
                        match self.apply_delta(delta, &item) {
                            Ok(()) => transaction,
                            Err(e) => {
                                return Err(e);
                            },
                        }
                    },
                    Err(e) => {
                        return Err(ProcessorError::from_transaction_error(&item, e));
                    },
                },
                _ => {
                    return Err(
                        ProcessorError::MissingTransaction(item.client_id, item.tx_id, item.action),
                    );
                },
            };
            self.transactions.insert(item.tx_id, transaction);
            proof {
                lemma_map_values_insert(old(self).transactions@, item.tx_id, transaction);
            }
            Ok(())
        }
    }

    /// Applies one ledger event.  The whole effect, success or error, is
    /// exactly [`account_step`]; a refused event leaves the account
    /// untouched.
    pub fn process(&mut self, item: LedgerItem) -> (r: Result<(), ProcessorError>)
        requires
            old(self).wf(),
            step_in_range(old(self)@, item),
        ensures
            final(self).wf(),
            match r {
                Ok(()) => account_step(old(self)@, item) == Ok::<AccountView, ProcessorError>(
                    final(self)@,
                ),
                Err(e) => account_step(old(self)@, item) == Err::<AccountView, ProcessorError>(e)
                    && final(self)@ == old(self)@,
            },
    {
        if matches!(self.state, AccountState::Locked) {
            Err(ProcessorError::LockedAccount(item.client_id, item.tx_id))
        } else {
            self.process_internal(item)
        }
    }

    /// Whether a chargeback has locked this account.
    pub fn is_locked(&self) -> (b: bool)
        ensures
            b == self@.locked,
    {
        matches!(self.state, AccountState::Locked)
    }

    /// Whether this account still accepts events.
    pub fn is_active(&self) -> (b: bool)
        ensures
            b == !self@.locked,
    {
        matches!(self.state, AccountState::Active)
    }

    /// The liquid balance.
    pub fn available(&self) -> (r: TxAmount)
        ensures
            r@ == self@.available,
    {
        self.available
    }

    /// The balance reserved by open disputes.
    pub fn held(&self) -> (r: TxAmount)
        ensures
            r@ == self@.held,
    {
        self.held
    }

    /// The total balance: by construction always the sum of the available
    /// and the held balance.
    pub fn total(&self) -> (r: TxAmount)
        requires
            amount_in_range(self@.available + self@.held),
        ensures
            r@ == self@.available + self@.held,
    {
        self.available.add(self.held)
    }

    /// The map of every transaction this account has accepted.
    pub fn transactions(&self) -> (r: &BTreeMap<TxID, Transaction>)
        ensures
            r@.map_values(|t: Transaction| t@) == self@.txs,
    {
        &self.transactions
    }

    /// Whether applying `item` would keep the balances representable;
    /// decides [`step_in_range`] at run time, so a caller can refuse an
    /// event instead of violating [`Account::process`]'s precondition.
    pub fn fits(&self, item: &LedgerItem) -> (b: bool)
        requires
            self.wf(),
        ensures
            b == step_in_range(self@, *item),
    {
        if matches!(self.state, AccountState::Locked) {
            return true;
        }
        let a = self.available.scaled() as i128;
        let h = self.held.scaled() as i128;
        let found = self.transactions.get(&item.tx_id);
        if let Some(t_ref) = found {
            let amt = t_ref.amount().scaled() as i128;
            match item.action {
                LedgerAction::Dispute => {
                    if matches!(t_ref.state(), TransactionState::New) {
                        balances_in_range(a - amt, h + amt)
                    } else {
                        true
                    }
                },
                LedgerAction::Resolve => {
                    if matches!(t_ref.state(), TransactionState::Disputed) {
                        balances_in_range(a + amt, h - amt)
                    } else {
                        true
                    }
                },
                LedgerAction::Chargeback => {
                    if matches!(t_ref.state(), TransactionState::Disputed) {
                        balances_in_range(a, h - amt)
                    } else {
                        true
                    }
                },
                _ => true,
            }
        } else {
            match item.action {
                LedgerAction::Deposit(amount) => {
                    if amount.is_negative() {
                        true
                    } else {
                        balances_in_range(a + amount.scaled() as i128, h)
                    }
                },
                LedgerAction::Withdrawal(amount) => {
                    if amount.is_negative() || self.available.lt(&amount) {
                        true
                    } else {
                        balances_in_range(a - amount.scaled() as i128, h)
                    }
                },
                _ => true,
            }
        }
    }
}

/// Law: the account rejects every event once it is locked, always with
/// `LockedAccount`, and [`Account::process`] then changes nothing.
pub proof fn lemma_locked_account_rejects(a: AccountView, item: LedgerItem)
    requires
        a.locked,
    ensures
        account_step(a, item) == Err::<AccountView, ProcessorError>(
            ProcessorError::LockedAccount(item.client_id, item.tx_id),
        ),
{
}

/// Law: a withdrawal of a fresh transaction id asking for more than the
/// available balance is refused with `InsufficientFunds` (and a refused
/// event leaves the account unchanged, by [`Account::process`]'s
/// contract).
pub proof fn lemma_insufficient_funds(pre: AccountView, item: LedgerItem, amount: TxAmount)
    requires
        !pre.locked,
        !pre.txs.contains_key(item.tx_id),
        item.action == LedgerAction::Withdrawal(amount),
        amount@ >= 0,
        pre.available < amount@,
    ensures
        account_step(pre, item) == Err::<AccountView, ProcessorError>(
            ProcessorError::InsufficientFunds(item.client_id, item.tx_id),
        ),
{
}

/// Law: a dispute, resolve or chargeback naming a transaction id the
/// account has never seen is refused with `MissingTransaction`.
pub proof fn lemma_missing_transaction(pre: AccountView, item: LedgerItem)
    requires
        !pre.locked,
        !pre.txs.contains_key(item.tx_id),
        item.action is Dispute || item.action is Resolve || item.action is Chargeback,
    ensures
        account_step(pre, item) == Err::<AccountView, ProcessorError>(
            ProcessorError::MissingTransaction(item.client_id, item.tx_id, item.action),
        ),
{
}

/// Law: a deposit or withdrawal reusing an existing transaction id is
/// refused with `DuplicateTransaction`.
pub proof fn lemma_duplicate_transaction(pre: AccountView, item: LedgerItem)
    requires
        !pre.locked,
        pre.txs.contains_key(item.tx_id),
        item.action is Deposit || item.action is Withdrawal,
    ensures
        account_step(pre, item) == Err::<AccountView, ProcessorError>(
            ProcessorError::DuplicateTransaction(item.client_id, item.tx_id),
        ),
{
}

/// Law: disputing and resolving never change the account's total; they
/// only move value between the available and the held balance.
pub proof fn lemma_dispute_resolve_preserve_total(pre: AccountView, item: LedgerItem)
    requires
        item.action is Dispute || item.action is Resolve,
        account_step(pre, item) is Ok,
    ensures
        account_step(pre, item)->Ok_0.available + account_step(pre, item)->Ok_0.held
            == pre.available + pre.held,
{
}

/// Law: a deposit followed by a dispute and a resolve of the same
/// transaction restores the available and the held balance exactly to
/// their values right after the deposit.
pub proof fn lemma_dispute_resolve_round_trip(
    pre: AccountView,
    dep: LedgerItem,
    dis: LedgerItem,
    res: LedgerItem,
)
    requires
        dep.action is Deposit,
        dis.action is Dispute,
        res.action is Resolve,
        dis.tx_id == dep.tx_id,
        res.tx_id == dep.tx_id,
        account_step(pre, dep) is Ok,
    ensures
        ({
            let a1 = account_step(pre, dep)->Ok_0;
            let a2 = account_step(a1, dis)->Ok_0;
            let a3 = account_step(a2, res)->Ok_0;
            &&& account_step(a1, dis) is Ok
            &&& account_step(a2, res) is Ok
            &&& a3.available == a1.available
            &&& a3.held == a1.held
            &&& !a3.locked
        }),
{
}

/// Law: a deposit followed by a dispute and a chargeback of the same
/// transaction withdraws the transaction's amount from the held balance,
/// leaves the available balance at its post-dispute value, and locks the
/// account for good.
pub proof fn lemma_chargeback_locks(
    pre: AccountView,
    dep: LedgerItem,
    dis: LedgerItem,
    cb: LedgerItem,
)
    requires
        dep.action is Deposit,
        dis.action is Dispute,
        cb.action is Chargeback,
        dis.tx_id == dep.tx_id,
        cb.tx_id == dep.tx_id,
        account_step(pre, dep) is Ok,
    ensures
        ({
            let amount = dep.action->Deposit_0@;
            let a1 = account_step(pre, dep)->Ok_0;
            let a2 = account_step(a1, dis)->Ok_0;
            let a3 = account_step(a2, cb)->Ok_0;
            &&& account_step(a1, dis) is Ok
            &&& account_step(a2, cb) is Ok
            &&& a3.held == a2.held - amount
            &&& a3.held == a1.held
            &&& a3.available == a2.available
            &&& a3.locked
        }),
{
}

/// Whether both balances and their sum lie in the machine integer range.
fn balances_in_range(available: i128, held: i128) -> (b: bool)
    requires
        -(u64::MAX as i128) <= available <= u64::MAX as i128,
        -(u64::MAX as i128) <= held <= u64::MAX as i128,
    ensures
        b == (amount_in_range(available as int) && amount_in_range(held as int) && amount_in_range(
            available as int + held as int,
        )),
{
    let lo = isize::MIN as i128;
    let hi = isize::MAX as i128;
    lo <= available && available <= hi && lo <= held && held <= hi && lo <= available + held
        && available + held <= hi
}

} // verus!
