//! The ledger: dispatching and validating payment events.
//!
//! `State` owns every account and the per-transaction dispute workflow.
//! Its one entry point, [`State::apply_transaction`], routes each record
//! to a handler for its kind, validates it, and either mutates the state
//! or reports a typed error. Errors come in two tiers: a
//! [`TransactionError`] marks a bad input record that is skipped, while
//! an [`IntegrityError`] marks an internal contradiction after which the
//! whole run must stop.
//!
//! The whole behaviour of `apply_transaction` is captured by the pure
//! transition function [`spec_apply`] over the mathematical image
//! [`LedgerV`] of the state.

use std::collections::HashMap;

use vstd::prelude::*;

use crate::account::spec_chargeback_funds;
use crate::account::spec_deposit;
use crate::account::spec_lock_funds;
use crate::account::spec_release_funds;
use crate::account::spec_withdraw;
use crate::account::Account;
use crate::account::AccountError;
use crate::account::AccountErrorV;
use crate::account::AccountV;
use crate::money::Money;

verus! {

/// The kind a record declares.
#[derive(Debug, Clone, Copy)]
pub enum TransactionType {
    Deposit,
    Withdrawal,
    Dispute,
    Resolve,
    Chargeback,
}

/// Lifecycle of a deposit or withdrawal through the dispute workflow.
#[derive(Debug, Clone, Copy, PartialEq, Eq, Structural)]
pub enum TransactionState {
    Withdrawn,
    Deposited,
    Disputed,
    Resolved,
    Chargebacked,
}

/// One incoming record. `amount` is present for deposits and
/// withdrawals and absent for the dispute-workflow kinds, which
/// reference the amount of the original transaction instead.
#[derive(Debug, Clone, Copy)]
pub struct Transaction {
    pub tpe: TransactionType,
    pub client: u16,
    pub tx: u32,
    pub amount: Option<Money>,
}

/// Mathematical image of a `Transaction`: the amount becomes an integer.
pub struct TransactionV {
    pub tpe: TransactionType,
    pub client: u16,
    pub tx: u32,
    pub amount: Option<int>,
}

impl View for Transaction {
    type V = TransactionV;

    open spec fn view(&self) -> TransactionV {
        TransactionV {
            tpe: self.tpe,
            client: self.client,
            tx: self.tx,
            amount: match self.amount {
                Some(m) => Some(m@),
                None => None,
            },
        }
    }
}

/// A problem with the input data. Such an error should be logged and the
/// offending record skipped; processing continues.
#[derive(Debug, Clone, Copy)]
pub enum TransactionError {
    AccountLocked { client: u16 },
    AmountNotProvided,
    NegativeAmountProvided { amount: Money },
    UnknownAccount { client: u16 },
    NotEnoughFunds { available: Money, required: Money },
    TransactionNotFound { tx: u32 },
    TransactionInvalidState { state: TransactionState },
    TransactionClientMismatch { tx: u32, client: u16 },
}

/// Mathematical image of a `TransactionError`.
pub enum TransactionErrorV {
    AccountLocked { client: u16 },
    AmountNotProvided,
    NegativeAmountProvided { amount: int },
    UnknownAccount { client: u16 },
    NotEnoughFunds { available: int, required: int },
    TransactionNotFound { tx: u32 },
    TransactionInvalidState { state: TransactionState },
    TransactionClientMismatch { tx: u32, client: u16 },
}

impl View for TransactionError {
    type V = TransactionErrorV;

    open spec fn view(&self) -> TransactionErrorV {
        match *self {
            TransactionError::AccountLocked { client } => TransactionErrorV::AccountLocked {
                client,
            },
            TransactionError::AmountNotProvided => TransactionErrorV::AmountNotProvided,
            TransactionError::NegativeAmountProvided { amount } =>
                TransactionErrorV::NegativeAmountProvided { amount: amount@ },
            TransactionError::UnknownAccount { client } => TransactionErrorV::UnknownAccount {
                client,
            },
            TransactionError::NotEnoughFunds { available, required } =>
                TransactionErrorV::NotEnoughFunds { available: available@, required: required@ },
            TransactionError::TransactionNotFound { tx } => TransactionErrorV::TransactionNotFound {
                tx,
            },
            TransactionError::TransactionInvalidState { state } =>
                TransactionErrorV::TransactionInvalidState { state },
            TransactionError::TransactionClientMismatch { tx, client } =>
                TransactionErrorV::TransactionClientMismatch { tx, client },
        }
    }
}

/// A major problem with the in-memory model itself. Such an error should
/// never occur; when it does, processing must stop immediately, as it is
/// a symptom of data corruption or an application error.
#[derive(Debug, Clone, Copy)]
pub enum IntegrityError {
    StateMissingForTransaction { tx: u32 },
    AmountMissingForTransaction { tx: u32 },
    AccountMissingForTransaction { client: u16 },
    FundsNotLocked { available: Money, required: Money },
    UnexpectedAccountError { error: AccountError },
}

/// Mathematical image of an `IntegrityError`.
pub enum IntegrityErrorV {
    StateMissingForTransaction { tx: u32 },
    AmountMissingForTransaction { tx: u32 },
    AccountMissingForTransaction { client: u16 },
    FundsNotLocked { available: int, required: int },
    UnexpectedAccountError { error: AccountErrorV },
}

impl View for IntegrityError {
    type V = IntegrityErrorV;

    open spec fn view(&self) -> IntegrityErrorV {
        match *self {
            IntegrityError::StateMissingForTransaction { tx } =>
                IntegrityErrorV::StateMissingForTransaction { tx },
            IntegrityError::AmountMissingForTransaction { tx } =>
                IntegrityErrorV::AmountMissingForTransaction { tx },
            IntegrityError::AccountMissingForTransaction { client } =>
                IntegrityErrorV::AccountMissingForTransaction { client },
            IntegrityError::FundsNotLocked { available, required } =>
                IntegrityErrorV::FundsNotLocked { available: available@, required: required@ },
            IntegrityError::UnexpectedAccountError { error } =>
                IntegrityErrorV::UnexpectedAccountError { error: error@ },
        }
    }
}

/// Any failure of `State::apply_transaction`, carrying the offending
/// record for diagnostics.
#[derive(Debug, Clone, Copy)]
#[allow(inconsistent_fields)]
pub enum CephalopodError {
    TransactionError { transaction: Transaction, error: TransactionError },
    IntegrityError { transaction: Transaction, error: IntegrityError },
}

/// Mathematical image of a `CephalopodError`.
#[allow(inconsistent_fields)]
pub enum CephalopodErrorV {
    TransactionError { transaction: TransactionV, error: TransactionErrorV },
    IntegrityError { transaction: TransactionV, error: IntegrityErrorV },
}

impl View for CephalopodError {
    type V = CephalopodErrorV;

    open spec fn view(&self) -> CephalopodErrorV {
        match *self {
            CephalopodError::TransactionError { transaction, error } =>
                CephalopodErrorV::TransactionError { transaction: transaction@, error: error@ },
            CephalopodError::IntegrityError { transaction, error } =>
                CephalopodErrorV::IntegrityError { transaction: transaction@, error: error@ },
        }
    }
}

/// Mathematical image of what `State::apply_transaction` returns.
pub open spec fn result_view(r: Result<(), CephalopodError>) -> Result<(), CephalopodErrorV> {
    match r {
        Ok(_) => Ok(()),
        Err(e) => Err(e@),
    }
}

/// Mathematical image of the whole ledger: the three maps it owns.
#[verifier::ext_equal]
pub struct LedgerV {
    /// Client id to account state.
    pub accounts: Map<u16, AccountV>,
    /// Transaction id to the original deposit or withdrawal record.
    pub history: Map<u32, TransactionV>,
    /// Transaction id to its dispute-workflow lifecycle state.
    pub states: Map<u32, TransactionState>,
}

impl LedgerV {
    /// The image of a freshly created ledger.
    pub open spec fn initial() -> LedgerV {
        LedgerV { accounts: Map::empty(), history: Map::empty(), states: Map::empty() }
    }

    /// Consistency of the three maps with one another:
    /// every account keeps its balance invariant; history and lifecycle
    /// states track exactly the same transaction ids; and every recorded
    /// transaction is a deposit or withdrawal that carries a
    /// non-negative amount, names its own id, and belongs to a client
    /// who has an account.
    pub open spec fn wf(self) -> bool {
        &&& forall|c: u16| #[trigger] self.accounts.contains_key(c) ==> self.accounts[c].inv()
        &&& self.states.dom() == self.history.dom()
        &&& forall|x: u32| #[trigger] self.history.contains_key(x) ==> {
            let h = self.history[x];
            &&& h.tx == x
            &&& (h.tpe is Deposit || h.tpe is Withdrawal)
            &&& h.amount is Some
            &&& 0 <= h.amount->Some_0
            &&& self.accounts.contains_key(h.client)
        }
    }

    /// The available balance of a client, zero when no account exists.
    pub open spec fn available_of(self, c: u16) -> int {
        if self.accounts.contains_key(c) {
            self.accounts[c].available
        } else {
            0
        }
    }

    /// The held balance of a client, zero when no account exists.
    pub open spec fn held_of(self, c: u16) -> int {
        if self.accounts.contains_key(c) {
            self.accounts[c].held
        } else {
            0
        }
    }

    /// Whether the client's account exists and is locked.
    pub open spec fn locked_of(self, c: u16) -> bool {
        self.accounts.contains_key(c) && self.accounts[c].locked
    }
}

/// How a deposit maps a low-level account failure to its tier: lock and
/// negative-amount failures are input errors; anything else was not
/// anticipated for a deposit and escalates.
pub open spec fn spec_deposit_error(t: TransactionV, e: AccountErrorV) -> CephalopodErrorV {
    match e {
        AccountErrorV::AccountLocked => CephalopodErrorV::TransactionError {
            transaction: t,
            error: TransactionErrorV::AccountLocked { client: t.client },
        },
        AccountErrorV::NegativeAmount { amount } => CephalopodErrorV::TransactionError {
            transaction: t,
            error: TransactionErrorV::NegativeAmountProvided { amount },
        },
        _ => CephalopodErrorV::IntegrityError {
            transaction: t,
            error: IntegrityErrorV::UnexpectedAccountError { error: e },
        },
    }
}

/// How a withdrawal maps a low-level account failure to its tier: all
/// three anticipated failures are input errors.
pub open spec fn spec_withdrawal_error(t: TransactionV, e: AccountErrorV) -> CephalopodErrorV {
    match e {
        AccountErrorV::AccountLocked => CephalopodErrorV::TransactionError {
            transaction: t,
            error: TransactionErrorV::AccountLocked { client: t.client },
        },
        AccountErrorV::NegativeAmount { amount } => CephalopodErrorV::TransactionError {
            transaction: t,
            error: TransactionErrorV::NegativeAmountProvided { amount },
        },
        AccountErrorV::NotEnoughFunds { available, required } => CephalopodErrorV::TransactionError {
            transaction: t,
            error: TransactionErrorV::NotEnoughFunds { available, required },
        },
        _ => CephalopodErrorV::IntegrityError {
            transaction: t,
            error: IntegrityErrorV::UnexpectedAccountError { error: e },
        },
    }
}

/// How a dispute maps a low-level account failure to its tier: lock and
/// insufficient-funds failures are input errors.
pub open spec fn spec_dispute_error(t: TransactionV, e: AccountErrorV) -> CephalopodErrorV {
    match e {
        AccountErrorV::AccountLocked => CephalopodErrorV::TransactionError {
            transaction: t,
            error: TransactionErrorV::AccountLocked { client: t.client },
        },
        AccountErrorV::NotEnoughFunds { available, required } => CephalopodErrorV::TransactionError {
            transaction: t,
            error: TransactionErrorV::NotEnoughFunds { available, required },
        },
        _ => CephalopodErrorV::IntegrityError {
            transaction: t,
            error: IntegrityErrorV::UnexpectedAccountError { error: e },
        },
    }
}

/// How a resolve or chargeback maps a low-level account failure to its
/// tier: a lock failure is an input error, but insufficient held funds
/// contradict what a successful dispute locked earlier, so that failure
/// escalates to `FundsNotLocked`.
pub open spec fn spec_settle_error(t: TransactionV, e: AccountErrorV) -> CephalopodErrorV {
    match e {
        AccountErrorV::AccountLocked => CephalopodErrorV::TransactionError {
            transaction: t,
            error: TransactionErrorV::AccountLocked { client: t.client },
        },
        AccountErrorV::NotEnoughFunds { available, required } => CephalopodErrorV::IntegrityError {
            transaction: t,
            error: IntegrityErrorV::FundsNotLocked { available, required },
        },
        _ => CephalopodErrorV::IntegrityError {
            transaction: t,
            error: IntegrityErrorV::UnexpectedAccountError { error: e },
        },
    }
}

/// The ledger after lazily creating an account for `c`: untouched when
/// one exists, extended with a fresh account otherwise.
pub open spec fn spec_create_account(pre: LedgerV, c: u16) -> LedgerV {
    if pre.accounts.contains_key(c) {
        pre
    } else {
        LedgerV { accounts: pre.accounts.insert(c, AccountV::initial()), ..pre }
    }
}

/// What a deposit decides and changes. The client's account is created
/// first when missing — also when the record then turns out to carry no
/// amount. On success the record enters the history with lifecycle
/// state `Deposited`.
pub open spec fn spec_apply_deposit(pre: LedgerV, t: TransactionV) -> (
    LedgerV,
    Result<(), CephalopodErrorV>,
) {
    let created = spec_create_account(pre, t.client);
    let accounts = created.accounts;
    match t.amount {
        None => (
            created,
            Err(CephalopodErrorV::TransactionError {
                transaction: t,
                error: TransactionErrorV::AmountNotProvided,
            }),
        ),
        Some(amount) => {
            let (a, res) = spec_deposit(accounts[t.client], amount);
            match res {
                Err(e) => (created, Err(spec_deposit_error(t, e))),
                Ok(_) => (
                    LedgerV {
                        accounts: accounts.insert(t.client, a),
                        history: pre.history.insert(t.tx, t),
                        states: pre.states.insert(t.tx, TransactionState::Deposited),
                    },
                    Ok(()),
                ),
            }
        },
    }
}

/// What a withdrawal decides and changes. The client's account must
/// already exist. On success the record enters the history with
/// lifecycle state `Withdrawn`.
pub open spec fn spec_apply_withdrawal(pre: LedgerV, t: TransactionV) -> (
    LedgerV,
    Result<(), CephalopodErrorV>,
) {
    if !pre.accounts.contains_key(t.client) {
        (
            pre,
            Err(CephalopodErrorV::TransactionError {
                transaction: t,
                error: TransactionErrorV::UnknownAccount { client: t.client },
            }),
        )
    } else {
        match t.amount {
            None => (
                pre,
                Err(CephalopodErrorV::TransactionError {
                    transaction: t,
                    error: TransactionErrorV::AmountNotProvided,
                }),
            ),
            Some(amount) => {
                let (a, res) = spec_withdraw(pre.accounts[t.client], amount);
                match res {
                    Err(e) => (pre, Err(spec_withdrawal_error(t, e))),
                    Ok(_) => (
                        LedgerV {
                            accounts: pre.accounts.insert(t.client, a),
                            history: pre.history.insert(t.tx, t),
                            states: pre.states.insert(t.tx, TransactionState::Withdrawn),
                        },
                        Ok(()),
                    ),
                }
            },
        }
    }
}

/// What a dispute decides and changes: the referenced transaction must
/// exist, be in lifecycle state `Deposited`, and belong to the record's
/// client; then the referenced amount moves from available to held and
/// the lifecycle state becomes `Disputed`.
pub open spec fn spec_apply_dispute(pre: LedgerV, t: TransactionV) -> (
    LedgerV,
    Result<(), CephalopodErrorV>,
) {
    if !pre.history.contains_key(t.tx) {
        (
            pre,
            Err(CephalopodErrorV::TransactionError {
                transaction: t,
                error: TransactionErrorV::TransactionNotFound { tx: t.tx },
            }),
        )
    } else {
        let target = pre.history[t.tx];
        if !pre.states.contains_key(t.tx) {
            (
                pre,
                Err(CephalopodErrorV::IntegrityError {
                    transaction: t,
                    error: IntegrityErrorV::StateMissingForTransaction { tx: t.tx },
                }),
            )
        } else if pre.states[t.tx] != TransactionState::Deposited {
            (
                pre,
                Err(CephalopodErrorV::TransactionError {
                    transaction: t,
                    error: TransactionErrorV::TransactionInvalidState { state: pre.states[t.tx] },
                }),
            )
        } else if t.client != target.client {
            (
                pre,
                Err(CephalopodErrorV::TransactionError {
                    transaction: t,
                    error: TransactionErrorV::TransactionClientMismatch {
                        tx: t.tx,
                        client: t.client,
                    },
                }),
            )
        } else if !pre.accounts.contains_key(t.client) {
            (
                pre,
                Err(CephalopodErrorV::IntegrityError {
                    transaction: t,
                    error: IntegrityErrorV::AccountMissingForTransaction { client: t.client },
                }),
            )
        } else if target.amount is None {
            (
                pre,
                Err(CephalopodErrorV::IntegrityError {
                    transaction: t,
                    error: IntegrityErrorV::AmountMissingForTransaction { tx: t.tx },
                }),
            )
        } else {
            let (a, res) = spec_lock_funds(pre.accounts[t.client], target.amount->Some_0);
            match res {
                Err(e) => (pre, Err(spec_dispute_error(t, e))),
                Ok(_) => (
                    LedgerV {
                        accounts: pre.accounts.insert(t.client, a),
                        states: pre.states.insert(t.tx, TransactionState::Disputed),
                        ..pre
                    },
                    Ok(()),
                ),
            }
        }
    }
}

/// What a resolve decides and changes: the referenced transaction must
/// exist, be `Disputed`, and belong to the record's client; then the
/// referenced amount moves back from held to available and the
/// lifecycle state becomes `Resolved`.
pub open spec fn spec_apply_resolve(pre: LedgerV, t: TransactionV) -> (
    LedgerV,
    Result<(), CephalopodErrorV>,
) {
    if !pre.history.contains_key(t.tx) {
        (
            pre,
            Err(CephalopodErrorV::TransactionError {
                transaction: t,
                error: TransactionErrorV::TransactionNotFound { tx: t.tx },
            }),
        )
    } else {
        let target = pre.history[t.tx];
        if !pre.states.contains_key(t.tx) {
            (
                pre,
                Err(CephalopodErrorV::IntegrityError {
                    transaction: t,
                    error: IntegrityErrorV::StateMissingForTransaction { tx: t.tx },
                }),
            )
        } else if pre.states[t.tx] != TransactionState::Disputed {
            (
                pre,
                Err(CephalopodErrorV::TransactionError {
                    transaction: t,
                    error: TransactionErrorV::TransactionInvalidState { state: pre.states[t.tx] },
                }),
            )
        } else if t.client != target.client {
            (
                pre,
                Err(CephalopodErrorV::TransactionError {
                    transaction: t,
                    error: TransactionErrorV::TransactionClientMismatch {
                        tx: t.tx,
                        client: t.client,
                    },
                }),
            )
        } else if !pre.accounts.contains_key(t.client) {
            (
                pre,
                Err(CephalopodErrorV::IntegrityError {
                    transaction: t,
                    error: IntegrityErrorV::AccountMissingForTransaction { client: t.client },
                }),
            )
        } else if target.amount is None {
            (
                pre,
                Err(CephalopodErrorV::IntegrityError {
                    transaction: t,
                    error: IntegrityErrorV::AmountMissingForTransaction { tx: t.tx },
                }),
            )
        } else {
            let (a, res) = spec_release_funds(pre.accounts[t.client], target.amount->Some_0);
            match res {
                Err(e) => (pre, Err(spec_settle_error(t, e))),
                Ok(_) => (
                    LedgerV {
                        accounts: pre.accounts.insert(t.client, a),
                        states: pre.states.insert(t.tx, TransactionState::Resolved),
                        ..pre
                    },
                    Ok(()),
                ),
            }
        }
    }
}

/// What a chargeback decides and changes: the referenced transaction
/// must exist, be `Disputed`, and belong to the record's client; then
/// the referenced amount leaves the held balance, the account locks for
/// good, and the lifecycle state becomes `Chargebacked`.
pub open spec fn spec_apply_chargeback(pre: LedgerV, t: TransactionV) -> (
    LedgerV,
    Result<(), CephalopodErrorV>,
) {
    if !pre.history.contains_key(t.tx) {
        (
            pre,
            Err(CephalopodErrorV::TransactionError {
                transaction: t,
                error: TransactionErrorV::TransactionNotFound { tx: t.tx },
            }),
        )
    } else {
        let target = pre.history[t.tx];
        if !pre.states.contains_key(t.tx) {
            (
                pre,
                Err(CephalopodErrorV::IntegrityError {
                    transaction: t,
                    error: IntegrityErrorV::StateMissingForTransaction { tx: t.tx },
                }),
            )
        } else if pre.states[t.tx] != TransactionState::Disputed {
            (
                pre,
                Err(CephalopodErrorV::TransactionError {
                    transaction: t,
                    error: TransactionErrorV::TransactionInvalidState { state: pre.states[t.tx] },
                }),
            )
        } else if t.client != target.client {
            (
                pre,
                Err(CephalopodErrorV::TransactionError {
                    transaction: t,
                    error: TransactionErrorV::TransactionClientMismatch {
                        tx: t.tx,
                        client: t.client,
                    },
                }),
            )
        } else if !pre.accounts.contains_key(t.client) {
            (
                pre,
                Err(CephalopodErrorV::IntegrityError {
                    transaction: t,
                    error: IntegrityErrorV::AccountMissingForTransaction { client: t.client },
                }),
            )
        } else if target.amount is None {
            (
                pre,
                Err(CephalopodErrorV::IntegrityError {
                    transaction: t,
                    error: IntegrityErrorV::AmountMissingForTransaction { tx: t.tx },
                }),
            )
        } else {
            let (a, res) = spec_chargeback_funds(pre.accounts[t.client], target.amount->Some_0);
            match res {
                Err(e) => (pre, Err(spec_settle_error(t, e))),
                Ok(_) => (
                    LedgerV {
                        accounts: pre.accounts.insert(t.client, a),
                        states: pre.states.insert(t.tx, TransactionState::Chargebacked),
                        ..pre
                    },
                    Ok(()),
                ),
            }
        }
    }
}

/// What one record does to the ledger: the new ledger image and the
/// result, by the record's kind.
pub open spec fn spec_apply(pre: LedgerV, t: TransactionV) -> (
    LedgerV,
    Result<(), CephalopodErrorV>,
) {
    match t.tpe {
        TransactionType::Deposit => spec_apply_deposit(pre, t),
        TransactionType::Withdrawal => spec_apply_withdrawal(pre, t),
        TransactionType::Dispute => spec_apply_dispute(pre, t),
        TransactionType::Resolve => spec_apply_resolve(pre, t),
        TransactionType::Chargeback => spec_apply_chargeback(pre, t),
    }
}

/// Lazily creating an account keeps the ledger image consistent: the
/// fresh account starts with both balances at zero and unlocked.
pub proof fn lemma_create_account_wf(pre: LedgerV, c: u16)
    requires
        pre.wf(),
    ensures
        spec_create_account(pre, c).wf(),
        spec_create_account(pre, c).accounts.contains_key(c),
{
}

/// A deposit keeps the ledger image consistent.
pub proof fn lemma_deposit_wf(pre: LedgerV, t: TransactionV)
    requires
        pre.wf(),
        t.tpe is Deposit,
    ensures
        spec_apply_deposit(pre, t).0.wf(),
{
    lemma_create_account_wf(pre, t.client);
    let created = spec_create_account(pre, t.client);
    match t.amount {
        Some(amount) => {
            let (a, res) = spec_deposit(created.accounts[t.client], amount);
            if res is Ok {
                let post = spec_apply_deposit(pre, t).0;
                assert(post.states.dom() =~= post.history.dom());
            }
        },
        None => {},
    }
}

/// A withdrawal keeps the ledger image consistent.
pub proof fn lemma_withdrawal_wf(pre: LedgerV, t: TransactionV)
    requires
        pre.wf(),
        t.tpe is Withdrawal,
    ensures
        spec_apply_withdrawal(pre, t).0.wf(),
{
    if pre.accounts.contains_key(t.client) && t.amount is Some {
        let (a, res) = spec_withdraw(pre.accounts[t.client], t.amount->Some_0);
        if res is Ok {
            let post = spec_apply_withdrawal(pre, t).0;
            assert(post.states.dom() =~= post.history.dom());
        }
    }
}

/// A dispute keeps the ledger image consistent.
pub proof fn lemma_dispute_wf(pre: LedgerV, t: TransactionV)
    requires
        pre.wf(),
    ensures
        spec_apply_dispute(pre, t).0.wf(),
{
    let post = spec_apply_dispute(pre, t).0;
    if pre.history.contains_key(t.tx) {
        assert(pre.states.contains_key(t.tx));
        assert(post.states.dom() =~= post.history.dom());
    }
}

/// A resolve keeps the ledger image consistent.
pub proof fn lemma_resolve_wf(pre: LedgerV, t: TransactionV)
    requires
        pre.wf(),
    ensures
        spec_apply_resolve(pre, t).0.wf(),
{
    let post = spec_apply_resolve(pre, t).0;
    if pre.history.contains_key(t.tx) {
        assert(pre.states.contains_key(t.tx));
        assert(post.states.dom() =~= post.history.dom());
    }
}

/// A chargeback keeps the ledger image consistent.
pub proof fn lemma_chargeback_wf(pre: LedgerV, t: TransactionV)
    requires
        pre.wf(),
    ensures
        spec_apply_chargeback(pre, t).0.wf(),
{
    let post = spec_apply_chargeback(pre, t).0;
    if pre.history.contains_key(t.tx) {
        assert(pre.states.contains_key(t.tx));
        assert(post.states.dom() =~= post.history.dom());
    }
}

/// Applying any record keeps the ledger image consistent.
pub proof fn lemma_apply_wf(pre: LedgerV, t: TransactionV)
    requires
        pre.wf(),
    ensures
        spec_apply(pre, t).0.wf(),
{
    match t.tpe {
        TransactionType::Deposit => lemma_deposit_wf(pre, t),
        TransactionType::Withdrawal => lemma_withdrawal_wf(pre, t),
        TransactionType::Dispute => lemma_dispute_wf(pre, t),
        TransactionType::Resolve => lemma_resolve_wf(pre, t),
        TransactionType::Chargeback => lemma_chargeback_wf(pre, t),
    }
}

/// Appending a client id that is not yet listed keeps the list free of
/// duplicates.
proof fn lemma_clients_push(s: Seq<u16>, c: u16)
    requires
        s.no_duplicates(),
        !s.contains(c),
    ensures
        s.push(c).no_duplicates(),
{
    let s2 = s.push(c);
    assert forall|i: int, j: int|
        0 <= i < s2.len() && 0 <= j < s2.len() && i != j implies s2[i] != s2[j] by {
        if i < s.len() && j < s.len() {
        } else if j == s.len() {
            if s2[i] == c {
                assert(s[i] == c);
                assert(s.contains(c));
            }
        } else {
            if s2[j] == c {
                assert(s[j] == c);
                assert(s.contains(c));
            }
        }
    }
}

/// The whole system state: every account and all past deposits and
/// withdrawals together with their dispute lifecycle.
pub struct State {
    /// Client id to account state.
    accounts: HashMap<u16, Account>,
    /// The client ids that own an account, in order of first appearance.
    clients: Vec<u16>,
    /// Transaction id to the original transaction (withdrawal or deposit).
    transaction_history: HashMap<u32, Transaction>,
    /// Transaction id to the lifecycle state disputes move through.
    transaction_state: HashMap<u32, TransactionState>,
}

impl View for State {
    type V = LedgerV;

    closed spec fn view(&self) -> LedgerV {
        LedgerV {
            accounts: self.accounts@.map_values(|a: Account| a@),
            history: self.transaction_history@.map_values(|t: Transaction| t@),
            states: self.transaction_state@,
        }
    }
}

impl State {
    /// The ledger image is consistent and the client list mirrors the
    /// account map.
    pub closed spec fn wf(self) -> bool {
        &&& self@.wf()
        &&& self.clients@.no_duplicates()
        &&& forall|c: u16| self.accounts@.contains_key(c) <==> #[trigger] self.clients@.contains(c)
    }

    /// An empty ledger.
    pub fn new() -> (r: State)
        ensures
            r.wf(),
            r@ == LedgerV::initial(),
    {
        let s = State {
            accounts: HashMap::new(),
            clients: Vec::new(),
            transaction_history: HashMap::new(),
            transaction_state: HashMap::new(),
        };
        proof {
            assert(s@ =~= LedgerV::initial());
        }
        s
    }

    /// The lifecycle state recorded for the referenced transaction; its
    /// absence while the history has the record is an internal
    /// contradiction.
    fn get_state(data: &HashMap<u32, TransactionState>, tx: &Transaction) -> (r: Result<
        TransactionState,
        CephalopodError,
    >)
        ensures
            match r {
                Ok(s) => data@.contains_key(tx.tx) && s == data@[tx.tx],
                Err(e) => !data@.contains_key(tx.tx) && e == (CephalopodError::IntegrityError {
                    transaction: *tx,
                    error: IntegrityError::StateMissingForTransaction { tx: tx.tx },
                }),
            },
    {
        match data.get(&tx.tx) {
            Some(s) => Ok(*s),
            None => Err(
                CephalopodError::IntegrityError {
                    transaction: *tx,
                    error: IntegrityError::StateMissingForTransaction { tx: tx.tx },
                },
            ),
        }
    }

    /// The account of the record's client; its absence while the
    /// referenced transaction names that client is an internal
    /// contradiction.
    fn get_account(data: &HashMap<u16, Account>, tx: &Transaction) -> (r: Result<
        Account,
        CephalopodError,
    >)
        ensures
            match r {
                Ok(a) => data@.contains_key(tx.client) && a == data@[tx.client],
                Err(e) => !data@.contains_key(tx.client) && e == (CephalopodError::IntegrityError {
                    transaction: *tx,
                    error: IntegrityError::AccountMissingForTransaction { client: tx.client },
                }),
            },
    {
        match data.get(&tx.client) {
            Some(a) => Ok(*a),
            None => Err(
                CephalopodError::IntegrityError {
                    transaction: *tx,
                    error: IntegrityError::AccountMissingForTransaction { client: tx.client },
                },
            ),
        }
    }

    /// A dispute-workflow record may only reference a transaction of its
    /// own client.
    fn assert_client_match(tx: &Transaction, referenced_tx: &Transaction) -> (r: Result<
        (),
        CephalopodError,
    >)
        ensures
            match r {
                Ok(_) => tx.client == referenced_tx.client,
                Err(e) => tx.client != referenced_tx.client && e
                    == (CephalopodError::TransactionError {
                    transaction: *tx,
                    error: TransactionError::TransactionClientMismatch {
                        tx: tx.tx,
                        client: tx.client,
                    },
                }),
            },
    {
        if tx.client != referenced_tx.client {
            Err(
                CephalopodError::TransactionError {
                    transaction: *tx,
                    error: TransactionError::TransactionClientMismatch {
                        tx: tx.tx,
                        client: tx.client,
                    },
                },
            )
        } else {
            Ok(())
        }
    }

    /// The referenced transaction must sit in the expected lifecycle
    /// state for this step of the dispute workflow.
    fn assert_state(tx: &Transaction, state: &TransactionState, expected: TransactionState) -> (r:
        Result<(), CephalopodError>)
        ensures
            match r {
                Ok(_) => *state == expected,
                Err(e) => *state != expected && e == (CephalopodError::TransactionError {
                    transaction: *tx,
                    error: TransactionError::TransactionInvalidState { state: *state },
                }),
            },
    {
        if *state != expected {
            Err(
                CephalopodError::TransactionError {
                    transaction: *tx,
                    error: TransactionError::TransactionInvalidState { state: *state },
                },
            )
        } else {
            Ok(())
        }
    }

    /// The amount of a recorded transaction; its absence is an internal
    /// contradiction, since only records with an amount enter the
    /// history.
    fn get_amount(tx: &Transaction) -> (r: Result<Money, CephalopodError>)
        ensures
            match r {
                Ok(m) => tx.amount == Some(m),
                Err(e) => tx.amount is None && e == (CephalopodError::IntegrityError {
                    transaction: *tx,
                    error: IntegrityError::AmountMissingForTransaction { tx: tx.tx },
                }),
            },
    {
        match tx.amount {
            Some(m) => Ok(m),
            None => Err(
                CephalopodError::IntegrityError {
                    transaction: *tx,
                    error: IntegrityError::AmountMissingForTransaction { tx: tx.tx },
                },
            ),
        }
    }

    fn apply_deposit(&mut self, t: &Transaction) -> (r: Result<(), CephalopodError>)
        requires
            old(self).wf(),
            t.tpe is Deposit,
        ensures
            final(self).wf(),
            (final(self)@, result_view(r)) == spec_apply_deposit(old(self)@, t@),
    {
        let ghost m0 = old(self)@;
        let ghost created = spec_create_account(m0, t.client);
        if !self.accounts.contains_key(&t.client) {
            self.accounts.insert(t.client, Account::new());
            self.clients.push(t.client);
            proof {
                lemma_clients_push(old(self).clients@, t.client);
            }
        }
        proof {
            broadcast use vstd::seq_lib::lemma_seq_contains_after_push;

            lemma_create_account_wf(m0, t.client);
            assert(self@.accounts =~= created.accounts);
            assert(self@ == created);
            assert(forall|c: u16|
                self.accounts@.contains_key(c) <==> #[trigger] self.clients@.contains(c));
        }
        let amount = match t.amount {
            Some(a) => a,
            None => {
                return Err(
                    CephalopodError::TransactionError {
                        transaction: *t,
                        error: TransactionError::AmountNotProvided,
                    },
                );
            },
        };
        proof {
            assert(self.accounts@.contains_key(t.client));
        }
        let mut account: Account = *self.accounts.get(&t.client).unwrap();
        proof {
            assert(account@ == created.accounts[t.client]);
        }
        match account.deposit(&amount) {
            Err(err) => Err(
                match err {
                    AccountError::AccountLocked => CephalopodError::TransactionError {
                        transaction: *t,
                        error: TransactionError::AccountLocked { client: t.client },
                    },
                    AccountError::NegativeAmount { amount } => CephalopodError::TransactionError {
                        transaction: *t,
                        error: TransactionError::NegativeAmountProvided { amount },
                    },
                    _ => CephalopodError::IntegrityError {
                        transaction: *t,
                        error: IntegrityError::UnexpectedAccountError { error: err },
                    },
                },
            ),
            Ok(_) => {
                self.accounts.insert(t.client, account);
                self.transaction_history.insert(t.tx, *t);
                self.transaction_state.insert(t.tx, TransactionState::Deposited);
                proof {
                    lemma_deposit_wf(m0, t@);
                    assert(self@.accounts =~= spec_apply_deposit(m0, t@).0.accounts);
                    assert(self@.history =~= spec_apply_deposit(m0, t@).0.history);
                    assert(self@.states =~= spec_apply_deposit(m0, t@).0.states);
                    assert(self@ == spec_apply_deposit(m0, t@).0);
                    assert(forall|c: u16|
                        self.accounts@.contains_key(c) <==> #[trigger] self.clients@.contains(c));
                }
                Ok(())
            },
        }
    }

    fn apply_withdrawal(&mut self, t: &Transaction) -> (r: Result<(), CephalopodError>)
        requires
            old(self).wf(),
            t.tpe is Withdrawal,
        ensures
            final(self).wf(),
            (final(self)@, result_view(r)) == spec_apply_withdrawal(old(self)@, t@),
    {
        let ghost m0 = old(self)@;
        if !self.accounts.contains_key(&t.client) {
            proof {
                assert(!m0.accounts.contains_key(t.client));
            }
            return Err(
                CephalopodError::TransactionError {
                    transaction: *t,
                    error: TransactionError::UnknownAccount { client: t.client },
                },
            );
        }
        let amount = match t.amount {
            Some(a) => a,
            None => {
                return Err(
                    CephalopodError::TransactionError {
                        transaction: *t,
                        error: TransactionError::AmountNotProvided,
                    },
                );
            },
        };
        let mut account: Account = *self.accounts.get(&t.client).unwrap();
        proof {
            assert(m0.accounts.contains_key(t.client));
            assert(account@ == m0.accounts[t.client]);
            assert(account@.inv());
        }
        match account.withdraw(&amount) {
            Err(err) => Err(
                match err {
                    AccountError::AccountLocked => CephalopodError::TransactionError {
                        transaction: *t,
                        error: TransactionError::AccountLocked { client: t.client },
                    },
                    AccountError::NegativeAmount { amount } => CephalopodError::TransactionError {
                        transaction: *t,
                        error: TransactionError::NegativeAmountProvided { amount },
                    },
                    AccountError::NotEnoughFunds { available, required } =>
                        CephalopodError::TransactionError {
                        transaction: *t,
                        error: TransactionError::NotEnoughFunds { available, required },
                    },
                    _ => CephalopodError::IntegrityError {
                        transaction: *t,
                        error: IntegrityError::UnexpectedAccountError { error: err },
                    },
                },
            ),
            Ok(_) => {
                self.accounts.insert(t.client, account);
                self.transaction_history.insert(t.tx, *t);
                self.transaction_state.insert(t.tx, TransactionState::Withdrawn);
                proof {
                    lemma_withdrawal_wf(m0, t@);
                    assert(self@.accounts =~= spec_apply_withdrawal(m0, t@).0.accounts);
                    assert(self@.history =~= spec_apply_withdrawal(m0, t@).0.history);
                    assert(self@.states =~= spec_apply_withdrawal(m0, t@).0.states);
                    assert(self@ == spec_apply_withdrawal(m0, t@).0);
                    assert(forall|c: u16|
                        self.accounts@.contains_key(c) <==> #[trigger] self.clients@.contains(c));
                }
                Ok(())
            },
        }
    }

    fn apply_dispute(&mut self, t: &Transaction) -> (r: Result<(), CephalopodError>)
        requires
            old(self).wf(),
        ensures
            final(self).wf(),
            (final(self)@, result_view(r)) == spec_apply_dispute(old(self)@, t@),
    {
        let ghost m0 = old(self)@;
        let target: Transaction = match self.transaction_history.get(&t.tx) {
            Some(ht) => *ht,
            None => {
                proof {
                    assert(!m0.history.contains_key(t.tx));
                }
                return Err(
                    CephalopodError::TransactionError {
                        transaction: *t,
                        error: TransactionError::TransactionNotFound { tx: t.tx },
                    },
                );
            },
        };
        proof {
            assert(m0.history.contains_key(t.tx));
            assert(target@ == m0.history[t.tx]);
        }
        let tstate = match Self::get_state(&self.transaction_state, t) {
            Ok(s) => s,
            Err(e) => {
                return Err(e);
            },
        };
        match Self::assert_state(t, &tstate, TransactionState::Deposited) {
            Ok(_) => {},
            Err(e) => {
                return Err(e);
            },
        }
        match Self::assert_client_match(t, &target) {
            Ok(_) => {},
            Err(e) => {
                return Err(e);
            },
        }
        let mut account = match Self::get_account(&self.accounts, t) {
            Ok(a) => a,
            Err(e) => {
                return Err(e);
            },
        };
        proof {
            assert(account@ == m0.accounts[t.client]);
        }
        let amount = match Self::get_amount(&target) {
            Ok(m) => m,
            Err(e) => {
                return Err(e);
            },
        };
        proof {
            assert(amount@ == m0.history[t.tx].amount->Some_0);
        }
        match account.lock_funds(&amount) {
            Err(err) => Err(
                match err {
                    AccountError::AccountLocked => CephalopodError::TransactionError {
                        transaction: *t,
                        error: TransactionError::AccountLocked { client: t.client },
                    },
                    AccountError::NotEnoughFunds { available, required } =>
                        CephalopodError::TransactionError {
                        transaction: *t,
                        error: TransactionError::NotEnoughFunds { available, required },
                    },
                    _ => CephalopodError::IntegrityError {
                        transaction: *t,
                        error: IntegrityError::UnexpectedAccountError { error: err },
                    },
                },
            ),
            Ok(_) => {
                self.accounts.insert(t.client, account);
                self.transaction_state.insert(t.tx, TransactionState::Disputed);
                proof {
                    lemma_dispute_wf(m0, t@);
                    assert(self@.accounts =~= spec_apply_dispute(m0, t@).0.accounts);
                    assert(self@.states =~= spec_apply_dispute(m0, t@).0.states);
                    assert(self@ == spec_apply_dispute(m0, t@).0);
                    assert(forall|c: u16|
                        self.accounts@.contains_key(c) <==> #[trigger] self.clients@.contains(c));
                }
                Ok(())
            },
        }
    }

    fn apply_resolve(&mut self, t: &Transaction) -> (r: Result<(), CephalopodError>)
        requires
            old(self).wf(),
        ensures
            final(self).wf(),
            (final(self)@, result_view(r)) == spec_apply_resolve(old(self)@, t@),
    {
        let ghost m0 = old(self)@;
        let target: Transaction = match self.transaction_history.get(&t.tx) {
            Some(ht) => *ht,
            None => {
                proof {
                    assert(!m0.history.contains_key(t.tx));
                }
                return Err(
                    CephalopodError::TransactionError {
                        transaction: *t,
                        error: TransactionError::TransactionNotFound { tx: t.tx },
                    },
                );
            },
        };
        proof {
            assert(m0.history.contains_key(t.tx));
            assert(target@ == m0.history[t.tx]);
        }
        let tstate = match Self::get_state(&self.transaction_state, t) {
            Ok(s) => s,
            Err(e) => {
                return Err(e);
            },
        };
        match Self::assert_state(t, &tstate, TransactionState::Disputed) {
            Ok(_) => {},
            Err(e) => {
                return Err(e);
            },
        }
        match Self::assert_client_match(t, &target) {
            Ok(_) => {},
            Err(e) => {
                return Err(e);
            },
        }
        let mut account = match Self::get_account(&self.accounts, t) {
            Ok(a) => a,
            Err(e) => {
                return Err(e);
            },
        };
        proof {
            assert(account@ == m0.accounts[t.client]);
        }
        let amount = match Self::get_amount(&target) {
            Ok(m) => m,
            Err(e) => {
                return Err(e);
            },
        };
        proof {
            assert(amount@ == m0.history[t.tx].amount->Some_0);
        }
        match account.release_funds(&amount) {
            Err(err) => Err(
                match err {
                    AccountError::AccountLocked => CephalopodError::TransactionError {
                        transaction: *t,
                        error: TransactionError::AccountLocked { client: t.client },
                    },
                    AccountError::NotEnoughFunds { available, required } =>
                        CephalopodError::IntegrityError {
                        transaction: *t,
                        error: IntegrityError::FundsNotLocked { available, required },
                    },
                    _ => CephalopodError::IntegrityError {
                        transaction: *t,
                        error: IntegrityError::UnexpectedAccountError { error: err },
                    },
                },
            ),
            Ok(_) => {
                self.accounts.insert(t.client, account);
                self.transaction_state.insert(t.tx, TransactionState::Resolved);
                proof {
                    lemma_resolve_wf(m0, t@);
                    assert(self@.accounts =~= spec_apply_resolve(m0, t@).0.accounts);
                    assert(self@.states =~= spec_apply_resolve(m0, t@).0.states);
                    assert(self@ == spec_apply_resolve(m0, t@).0);
                    assert(forall|c: u16|
                        self.accounts@.contains_key(c) <==> #[trigger] self.clients@.contains(c));
                }
                Ok(())
            },
        }
    }

    fn apply_chargeback(&mut self, t: &Transaction) -> (r: Result<(), CephalopodError>)
        requires
            old(self).wf(),
        ensures
            final(self).wf(),
            (final(self)@, result_view(r)) == spec_apply_chargeback(old(self)@, t@),
    {
        let ghost m0 = old(self)@;
        let target: Transaction = match self.transaction_history.get(&t.tx) {
            Some(ht) => *ht,
            None => {
                proof {
                    assert(!m0.history.contains_key(t.tx));
                }
                return Err(
                    CephalopodError::TransactionError {
                        transaction: *t,
                        error: TransactionError::TransactionNotFound { tx: t.tx },
                    },
                );
            },
        };
        proof {
            assert(m0.history.contains_key(t.tx));
            assert(target@ == m0.history[t.tx]);
        }
        let tstate = match Self::get_state(&self.transaction_state, t) {
            Ok(s) => s,
            Err(e) => {
                return Err(e);
            },
        };
        match Self::assert_state(t, &tstate, TransactionState::Disputed) {
            Ok(_) => {},
            Err(e) => {
                return Err(e);
            },
        }
        match Self::assert_client_match(t, &target) {
            Ok(_) => {},
            Err(e) => {
                return Err(e);
            },
        }
        let mut account = match Self::get_account(&self.accounts, t) {
            Ok(a) => a,
            Err(e) => {
                return Err(e);
            },
        };
        proof {
            assert(account@ == m0.accounts[t.client]);
        }
        let amount = match Self::get_amount(&target) {
            Ok(m) => m,
            Err(e) => {
                return Err(e);
            },
        };
        proof {
            assert(amount@ == m0.history[t.tx].amount->Some_0);
        }
        match account.chargeback_funds(&amount) {
            Err(err) => Err(
                match err {
                    AccountError::AccountLocked => CephalopodError::TransactionError {
                        transaction: *t,
                        error: TransactionError::AccountLocked { client: t.client },
                    },
                    AccountError::NotEnoughFunds { available, required } =>
                        CephalopodError::IntegrityError {
                        transaction: *t,
                        error: IntegrityError::FundsNotLocked { available, required },
                    },
                    _ => CephalopodError::IntegrityError {
                        transaction: *t,
                        error: IntegrityError::UnexpectedAccountError { error: err },
                    },
                },
            ),
            Ok(_) => {
                self.accounts.insert(t.client, account);
                self.transaction_state.insert(t.tx, TransactionState::Chargebacked);
                proof {
                    lemma_chargeback_wf(m0, t@);
                    assert(self@.accounts =~= spec_apply_chargeback(m0, t@).0.accounts);
                    assert(self@.states =~= spec_apply_chargeback(m0, t@).0.states);
                    assert(self@ == spec_apply_chargeback(m0, t@).0);
                    assert(forall|c: u16|
                        self.accounts@.contains_key(c) <==> #[trigger] self.clients@.contains(c));
                }
                Ok(())
            },
        }
    }

    /// Applies a transaction to the state.
    ///
    /// If an error is returned, the transaction has not been applied;
    /// the new state and the result are exactly what [`spec_apply`]
    /// gives for the old state and the record.
    pub fn apply_transaction(&mut self, tx: &Transaction) -> (r: Result<(), CephalopodError>)
        requires
            old(self).wf(),
        ensures
            final(self).wf(),
            final(self)@ == spec_apply(old(self)@, tx@).0,
            result_view(r) == spec_apply(old(self)@, tx@).1,
    {
        match tx.tpe {
            TransactionType::Deposit => self.apply_deposit(tx),
            TransactionType::Withdrawal => self.apply_withdrawal(tx),
            TransactionType::Dispute => self.apply_dispute(tx),
            TransactionType::Resolve => self.apply_resolve(tx),
            TransactionType::Chargeback => self.apply_chargeback(tx),
        }
    }

    /// The account recorded for a client, if any.
    pub fn get_client(&self, client: u16) -> (r: Option<Account>)
        ensures
            match r {
                Some(a) => self@.accounts.contains_key(client) && a@ == self@.accounts[client],
                None => !self@.accounts.contains_key(client),
            },
    {
        match self.accounts.get(&client) {
            Some(a) => Some(*a),
            None => None,
        }
    }

    /// All the accounts in the state, one entry per client, in order of
    /// first appearance.
    pub fn iter_clients(&self) -> (r: Vec<(u16, Account)>)
        requires
            self.wf(),
        ensures
            forall|i: int|
                0 <= i < r@.len() ==> self@.accounts.contains_key((#[trigger] r@[i]).0)
                    && r@[i].1@ == self@.accounts[r@[i].0],
            forall|c: u16|
                #[trigger] self@.accounts.contains_key(c) ==> exists|i: int|
                    0 <= i < r@.len() && r@[i].0 == c,
            forall|i: int, j: int| 0 <= i < j < r@.len() ==> r@[i].0 != r@[j].0,
    {
        let mut out: Vec<(u16, Account)> = Vec::new();
        let n: usize = self.clients.len();
        let mut idx: usize = 0;
        while idx < n
            invariant
                self.wf(),
                n == self.clients@.len(),
                idx <= n,
                out@.len() == idx,
                forall|i: int| 0 <= i < idx ==> (#[trigger] out@[i]).0 == self.clients@[i],
                forall|i: int|
                    0 <= i < idx ==> self@.accounts.contains_key((#[trigger] out@[i]).0)
                        && out@[i].1@ == self@.accounts[out@[i].0],
            decreases n - idx,
        {
            let c = self.clients[idx];
            proof {
                assert(self.clients@[idx as int] == c);
                assert(self.clients@.contains(c));
                assert(self.accounts@.contains_key(c));
                assert(self@.accounts.contains_key(c));
            }
            let account: Account = *self.accounts.get(&c).unwrap();
            proof {
                assert(account@ == self@.accounts[c]);
            }
            out.push((c, account));
            idx += 1;
        }
        proof {
            assert forall|c: u16| #[trigger] self@.accounts.contains_key(c) implies exists|i: int|
                0 <= i < out@.len() && out@[i].0 == c by {
                assert(self.clients@.contains(c));
                let i = choose|i: int|
                    0 <= i < self.clients@.len() && self.clients@[i] == c;
                assert(out@[i].0 == c);
            }
        }
        out
    }
}

} // verus!

