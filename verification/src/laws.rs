//! System-wide laws of the ledger.
//!
//! Each proof function here states a property of the transition function
//! [`spec_apply`] that holds for every ledger image and record, not just
//! for chosen values. Together with the exact contract of
//! `State::apply_transaction`, which says that the executable ledger
//! follows `spec_apply` step by step, these laws carry over to every run
//! of the executable code.

use vstd::prelude::*;

use crate::account::AccountErrorV;
use crate::ledger::lemma_apply_wf;
use crate::ledger::lemma_chargeback_wf;
use crate::ledger::lemma_deposit_wf;
use crate::ledger::lemma_dispute_wf;
use crate::ledger::lemma_resolve_wf;
use crate::ledger::lemma_withdrawal_wf;
use crate::ledger::spec_apply;
use crate::ledger::spec_apply_chargeback;
use crate::ledger::spec_apply_deposit;
use crate::ledger::spec_apply_dispute;
use crate::ledger::spec_apply_resolve;
use crate::ledger::spec_apply_withdrawal;
use crate::ledger::IntegrityErrorV;
use crate::ledger::CephalopodErrorV;
use crate::ledger::LedgerV;
use crate::ledger::TransactionErrorV;
use crate::ledger::TransactionState;
use crate::ledger::TransactionType;
use crate::ledger::TransactionV;

verus! {

/// The ledger after replaying a sequence of records in order.
pub open spec fn spec_run(pre: LedgerV, ts: Seq<TransactionV>) -> LedgerV
    decreases ts.len(),
{
    if ts.len() == 0 {
        pre
    } else {
        spec_run(spec_apply(pre, ts[0]).0, ts.skip(1))
    }
}

/// The signed amount one record moves into client `c`'s available
/// balance: positive for an applied deposit, negative for an applied
/// withdrawal, zero for a record that fails or concerns someone else.
pub open spec fn spec_flow(pre: LedgerV, t: TransactionV, c: u16) -> int {
    if spec_apply(pre, t).1 is Ok && t.client == c {
        if t.tpe is Deposit {
            t.amount->Some_0
        } else if t.tpe is Withdrawal {
            -(t.amount->Some_0)
        } else {
            0
        }
    } else {
        0
    }
}

/// The sum of applied deposits minus applied withdrawals for client `c`
/// over a whole sequence of records.
pub open spec fn spec_net_flow(pre: LedgerV, ts: Seq<TransactionV>, c: u16) -> int
    decreases ts.len(),
{
    if ts.len() == 0 {
        0
    } else {
        spec_flow(pre, ts[0], c) + spec_net_flow(spec_apply(pre, ts[0]).0, ts.skip(1), c)
    }
}

/// One deposit or withdrawal changes a client's available balance by
/// exactly its flow toward that client.
proof fn lemma_step_available(pre: LedgerV, t: TransactionV, c: u16)
    requires
        pre.wf(),
        t.tpe is Deposit || t.tpe is Withdrawal,
    ensures
        spec_apply(pre, t).0.available_of(c) == pre.available_of(c) + spec_flow(pre, t, c),
{
}

/// For any sequence of deposits and withdrawals, a client's final
/// available balance is the starting balance plus the sum of the
/// applied deposits minus the sum of the applied withdrawals.
pub proof fn law_available_is_net_flow(pre: LedgerV, ts: Seq<TransactionV>, c: u16)
    requires
        pre.wf(),
        forall|i: int|
            0 <= i < ts.len() ==> ((#[trigger] ts[i]).tpe is Deposit || ts[i].tpe is Withdrawal),
    ensures
        spec_run(pre, ts).available_of(c) == pre.available_of(c) + spec_net_flow(pre, ts, c),
    decreases ts.len(),
{
    if ts.len() > 0 {
        let t = ts[0];
        let mid = spec_apply(pre, t).0;
        lemma_step_available(pre, t, c);
        lemma_apply_wf(pre, t);
        assert(forall|i: int|
            0 <= i < ts.skip(1).len() ==> #[trigger] ts.skip(1)[i] == ts[i + 1]);
        law_available_is_net_flow(mid, ts.skip(1), c);
    }
}

/// A deposit or withdrawal without an amount fails with an input-level
/// error and leaves every balance and every lock flag unchanged.
pub proof fn law_missing_amount_rejected(pre: LedgerV, t: TransactionV)
    requires
        pre.wf(),
        t.tpe is Deposit || t.tpe is Withdrawal,
        t.amount is None,
    ensures
        ({
            let (post, r) = spec_apply(pre, t);
            &&& r matches Err(e) && e is TransactionError
            &&& forall|c: u16| #[trigger] post.available_of(c) == pre.available_of(c)
            &&& forall|c: u16| #[trigger] post.held_of(c) == pre.held_of(c)
            &&& forall|c: u16| #[trigger] post.locked_of(c) == pre.locked_of(c)
        }),
{
}

/// A deposit or withdrawal with a negative amount fails with an
/// input-level error and leaves every balance and every lock flag
/// unchanged.
pub proof fn law_negative_amount_rejected(pre: LedgerV, t: TransactionV, amount: int)
    requires
        pre.wf(),
        t.tpe is Deposit || t.tpe is Withdrawal,
        t.amount == Some(amount),
        amount < 0,
    ensures
        ({
            let (post, r) = spec_apply(pre, t);
            &&& r matches Err(e) && e is TransactionError
            &&& forall|c: u16| #[trigger] post.available_of(c) == pre.available_of(c)
            &&& forall|c: u16| #[trigger] post.held_of(c) == pre.held_of(c)
            &&& forall|c: u16| #[trigger] post.locked_of(c) == pre.locked_of(c)
        }),
{
}

/// A withdrawal against a client with no account fails with
/// `UnknownAccount` and changes nothing — in particular, no account is
/// created.
pub proof fn law_unknown_account_rejected(pre: LedgerV, t: TransactionV)
    requires
        pre.wf(),
        t.tpe is Withdrawal,
        !pre.accounts.contains_key(t.client),
    ensures
        spec_apply(pre, t).0 == pre,
        spec_apply(pre, t).1 == Err::<(), CephalopodErrorV>(
            CephalopodErrorV::TransactionError {
                transaction: t,
                error: TransactionErrorV::UnknownAccount { client: t.client },
            },
        ),
{
}

/// A withdrawal above the available balance fails with `NotEnoughFunds`
/// and changes nothing.
pub proof fn law_overdraft_rejected(pre: LedgerV, t: TransactionV, amount: int)
    requires
        pre.wf(),
        t.tpe is Withdrawal,
        pre.accounts.contains_key(t.client),
        !pre.accounts[t.client].locked,
        t.amount == Some(amount),
        0 <= amount,
        amount > pre.accounts[t.client].available,
    ensures
        spec_apply(pre, t).0 == pre,
        spec_apply(pre, t).1 == Err::<(), CephalopodErrorV>(
            CephalopodErrorV::TransactionError {
                transaction: t,
                error: TransactionErrorV::NotEnoughFunds {
                    available: pre.accounts[t.client].available,
                    required: amount,
                },
            },
        ),
{
}

/// After a successful dispute, resolving the same transaction for the
/// same client always succeeds and restores the client's available and
/// held balances to their pre-dispute values; the account stays
/// unlocked, and the transaction ends in lifecycle state `Resolved`.
pub proof fn law_dispute_resolve_round_trip(pre: LedgerV, d: TransactionV, s: TransactionV)
    requires
        pre.wf(),
        d.tpe is Dispute,
        s.tpe is Resolve,
        s.tx == d.tx,
        s.client == d.client,
        spec_apply(pre, d).1 is Ok,
    ensures
        ({
            let mid = spec_apply(pre, d).0;
            let (post, r) = spec_apply(mid, s);
            &&& r is Ok
            &&& post.available_of(d.client) == pre.available_of(d.client)
            &&& post.held_of(d.client) == pre.held_of(d.client)
            &&& post.locked_of(d.client) == pre.locked_of(d.client)
            &&& post.states[d.tx] == TransactionState::Resolved
        }),
{
    lemma_apply_wf(pre, d);
}

/// After a successful dispute, charging back the same transaction for
/// the same client always succeeds: the disputed amount leaves the held
/// balance for good, the available balance keeps its post-dispute value
/// (the pre-dispute value minus the disputed amount), the account is
/// locked, and the transaction ends in lifecycle state `Chargebacked`.
pub proof fn law_dispute_chargeback(pre: LedgerV, d: TransactionV, s: TransactionV)
    requires
        pre.wf(),
        d.tpe is Dispute,
        s.tpe is Chargeback,
        s.tx == d.tx,
        s.client == d.client,
        spec_apply(pre, d).1 is Ok,
    ensures
        ({
            let mid = spec_apply(pre, d).0;
            let (post, r) = spec_apply(mid, s);
            &&& r is Ok
            &&& post.available_of(d.client) == pre.available_of(d.client) - pre.history[
                d.tx].amount->Some_0
            &&& post.held_of(d.client) == pre.held_of(d.client)
            &&& post.locked_of(d.client)
            &&& post.states[d.tx] == TransactionState::Chargebacked
        }),
{
    lemma_apply_wf(pre, d);
}

/// A dispute, resolve or chargeback that references an unrecorded
/// transaction id fails with `TransactionNotFound` and changes nothing.
pub proof fn law_unknown_reference_rejected(pre: LedgerV, t: TransactionV)
    requires
        pre.wf(),
        t.tpe is Dispute || t.tpe is Resolve || t.tpe is Chargeback,
        !pre.history.contains_key(t.tx),
    ensures
        spec_apply(pre, t).0 == pre,
        spec_apply(pre, t).1 == Err::<(), CephalopodErrorV>(
            CephalopodErrorV::TransactionError {
                transaction: t,
                error: TransactionErrorV::TransactionNotFound { tx: t.tx },
            },
        ),
{
}

/// A dispute of a transaction whose lifecycle state is not `Deposited`
/// — a withdrawal, an open dispute, or a settled one — fails with
/// `TransactionInvalidState` and changes nothing.
pub proof fn law_dispute_needs_deposited(pre: LedgerV, t: TransactionV)
    requires
        pre.wf(),
        t.tpe is Dispute,
        pre.history.contains_key(t.tx),
        pre.states[t.tx] != TransactionState::Deposited,
    ensures
        spec_apply(pre, t).0 == pre,
        spec_apply(pre, t).1 == Err::<(), CephalopodErrorV>(
            CephalopodErrorV::TransactionError {
                transaction: t,
                error: TransactionErrorV::TransactionInvalidState { state: pre.states[t.tx] },
            },
        ),
{
    assert(pre.states.contains_key(t.tx));
}

/// Once a dispute has been settled — resolved or charged back — a new
/// dispute of the same transaction id always fails with
/// `TransactionInvalidState`; it never silently succeeds.
pub proof fn law_settled_dispute_stays_settled(pre: LedgerV, t: TransactionV)
    requires
        pre.wf(),
        t.tpe is Dispute,
        pre.history.contains_key(t.tx),
        pre.states[t.tx] is Resolved || pre.states[t.tx] is Chargebacked,
    ensures
        spec_apply(pre, t).0 == pre,
        spec_apply(pre, t).1 == Err::<(), CephalopodErrorV>(
            CephalopodErrorV::TransactionError {
                transaction: t,
                error: TransactionErrorV::TransactionInvalidState { state: pre.states[t.tx] },
            },
        ),
{
    law_dispute_needs_deposited(pre, t);
}

/// A resolve or chargeback of a transaction whose lifecycle state is not
/// `Disputed` fails with `TransactionInvalidState` and changes nothing.
pub proof fn law_settle_needs_disputed(pre: LedgerV, t: TransactionV)
    requires
        pre.wf(),
        t.tpe is Resolve || t.tpe is Chargeback,
        pre.history.contains_key(t.tx),
        pre.states[t.tx] != TransactionState::Disputed,
    ensures
        spec_apply(pre, t).0 == pre,
        spec_apply(pre, t).1 == Err::<(), CephalopodErrorV>(
            CephalopodErrorV::TransactionError {
                transaction: t,
                error: TransactionErrorV::TransactionInvalidState { state: pre.states[t.tx] },
            },
        ),
{
    assert(pre.states.contains_key(t.tx));
}

/// A dispute, resolve or chargeback whose client differs from the
/// referenced transaction's client fails with
/// `TransactionClientMismatch` and changes nothing.
pub proof fn law_client_mismatch_rejected(pre: LedgerV, t: TransactionV)
    requires
        pre.wf(),
        t.tpe is Dispute || t.tpe is Resolve || t.tpe is Chargeback,
        pre.history.contains_key(t.tx),
        pre.states[t.tx] == (if t.tpe is Dispute {
            TransactionState::Deposited
        } else {
            TransactionState::Disputed
        }),
        t.client != pre.history[t.tx].client,
    ensures
        spec_apply(pre, t).0 == pre,
        spec_apply(pre, t).1 == Err::<(), CephalopodErrorV>(
            CephalopodErrorV::TransactionError {
                transaction: t,
                error: TransactionErrorV::TransactionClientMismatch { tx: t.tx, client: t.client },
            },
        ),
{
    assert(pre.states.contains_key(t.tx));
}

/// A locked account is frozen: no record of any kind ever changes it
/// again.
pub proof fn law_locked_account_frozen(pre: LedgerV, t: TransactionV, c: u16)
    requires
        pre.wf(),
        pre.locked_of(c),
    ensures
        ({
            let post = spec_apply(pre, t).0;
            &&& post.accounts.contains_key(c)
            &&& post.accounts[c] == pre.accounts[c]
        }),
{
}

/// Every record that reaches a locked account's balance check — a
/// deposit or withdrawal with an amount, or a dispute-workflow record
/// that passes the lookup, lifecycle and client checks — fails with
/// `AccountLocked`.
pub proof fn law_locked_account_rejected(pre: LedgerV, t: TransactionV)
    requires
        pre.wf(),
        pre.locked_of(t.client),
        match t.tpe {
            TransactionType::Deposit => t.amount is Some,
            TransactionType::Withdrawal => t.amount is Some,
            TransactionType::Dispute => pre.history.contains_key(t.tx) && pre.states[t.tx]
                == TransactionState::Deposited && pre.history[t.tx].client == t.client,
            TransactionType::Resolve => pre.history.contains_key(t.tx) && pre.states[t.tx]
                == TransactionState::Disputed && pre.history[t.tx].client == t.client,
            TransactionType::Chargeback => pre.history.contains_key(t.tx) && pre.states[t.tx]
                == TransactionState::Disputed && pre.history[t.tx].client == t.client,
        },
    ensures
        spec_apply(pre, t).0 == pre,
        spec_apply(pre, t).1 == Err::<(), CephalopodErrorV>(
            CephalopodErrorV::TransactionError {
                transaction: t,
                error: TransactionErrorV::AccountLocked { client: t.client },
            },
        ),
{
    if t.tpe is Dispute || t.tpe is Resolve || t.tpe is Chargeback {
        assert(pre.states.contains_key(t.tx));
    }
}


/// The ids of client `c`'s open disputes: recorded transactions whose
/// lifecycle state is `Disputed` and whose client is `c`.
pub open spec fn disputed_set(m: LedgerV, c: u16) -> Set<u32> {
    Set::new(
        |x: u32|
            m.states.contains_key(x) && m.states[x] is Disputed && m.history.contains_key(x)
                && m.history[x].client == c,
    )
}

/// The amount the history records for transaction `x`.
pub open spec fn recorded_amount(m: LedgerV, x: u32) -> int {
    m.history[x].amount->Some_0
}

/// One step of summing recorded amounts.
pub open spec fn sum_step(m: LedgerV) -> spec_fn(int, u32) -> int {
    |acc: int, x: u32| acc + recorded_amount(m, x)
}

/// The total amount of client `c`'s open disputes.
pub open spec fn disputed_sum(m: LedgerV, c: u16) -> int {
    disputed_set(m, c).fold(0, sum_step(m))
}

/// A balanced ledger image: consistent, with finitely many recorded
/// transactions, where every client's held balance equals the total
/// amount of that client's open disputes. Every ledger reachable from
/// the initial one through records with fresh deposit and withdrawal
/// ids is balanced.
pub open spec fn balanced(m: LedgerV) -> bool {
    &&& m.wf()
    &&& m.states.dom().finite()
    &&& forall|c: u16|
        #[trigger] m.accounts.contains_key(c) ==> m.accounts[c].held == disputed_sum(m, c)
}

proof fn lemma_sum_step_commutative(m: LedgerV)
    ensures
        vstd::set::fold::is_fun_commutative(sum_step(m)),
{
}

/// Folding the same set with two ledgers that record the same amounts
/// for its members gives the same sum.
proof fn lemma_fold_sum_congruent(s: Set<u32>, m1: LedgerV, m2: LedgerV, z: int)
    requires
        s.finite(),
        forall|x: u32| s.contains(x) ==> recorded_amount(m1, x) == recorded_amount(m2, x),
    ensures
        s.fold(z, sum_step(m1)) == s.fold(z, sum_step(m2)),
    decreases s.len(),
{
    lemma_sum_step_commutative(m1);
    lemma_sum_step_commutative(m2);
    if s.len() == 0 {
        s.lemma_len0_is_empty();
        vstd::set::fold::lemma_fold_empty::<u32, int>(z, sum_step(m1));
        vstd::set::fold::lemma_fold_empty::<u32, int>(z, sum_step(m2));
    } else {
        if !(exists|x: u32| s.contains(x)) {
            assert(s =~= Set::empty());
        }
        let x = s.choose();
        let s0 = s.remove(x);
        lemma_fold_sum_congruent(s0, m1, m2, z);
        vstd::set::fold::lemma_fold_insert(s0, z, sum_step(m1), x);
        vstd::set::fold::lemma_fold_insert(s0, z, sum_step(m2), x);
        assert(s0.insert(x) =~= s);
    }
}

/// A sum of non-negative amounts never drops below its start.
proof fn lemma_fold_sum_lower_bound(s: Set<u32>, m: LedgerV, z: int)
    requires
        s.finite(),
        forall|x: u32| s.contains(x) ==> recorded_amount(m, x) >= 0,
    ensures
        s.fold(z, sum_step(m)) >= z,
    decreases s.len(),
{
    lemma_sum_step_commutative(m);
    if s.len() == 0 {
        s.lemma_len0_is_empty();
        vstd::set::fold::lemma_fold_empty::<u32, int>(z, sum_step(m));
    } else {
        if !(exists|x: u32| s.contains(x)) {
            assert(s =~= Set::empty());
        }
        let x = s.choose();
        let s0 = s.remove(x);
        lemma_fold_sum_lower_bound(s0, m, z);
        vstd::set::fold::lemma_fold_insert(s0, z, sum_step(m), x);
        assert(s0.insert(x) =~= s);
    }
}

/// Taking one member out of a sum leaves the sum minus that member's
/// amount.
proof fn lemma_fold_sum_remove(s: Set<u32>, m: LedgerV, x: u32)
    requires
        s.finite(),
        s.contains(x),
    ensures
        s.fold(0, sum_step(m)) == s.remove(x).fold(0, sum_step(m)) + recorded_amount(m, x),
{
    lemma_sum_step_commutative(m);
    let s0 = s.remove(x);
    vstd::set::fold::lemma_fold_insert(s0, 0, sum_step(m), x);
    assert(s0.insert(x) =~= s);
}

/// In a consistent ledger, the total of a client's open disputes covers
/// each single one of them.
proof fn lemma_disputed_sum_covers(m: LedgerV, c: u16, x: u32)
    requires
        m.wf(),
        m.states.dom().finite(),
        disputed_set(m, c).contains(x),
    ensures
        disputed_sum(m, c) >= recorded_amount(m, x),
        recorded_amount(m, x) >= 0,
    {
    broadcast use vstd::set_lib::lemma_set_subset_finite;

    let s = disputed_set(m, c);
    assert(s.subset_of(m.states.dom()));
    lemma_fold_sum_remove(s, m, x);
    lemma_fold_sum_lower_bound(s.remove(x), m, 0);
}


/// Two ledgers with the same recorded transactions and the same
/// lifecycle states give every client the same disputed total.
proof fn lemma_sum_same(pre: LedgerV, post: LedgerV, c: u16)
    requires
        pre.states.dom().finite(),
        disputed_set(post, c) == disputed_set(pre, c),
        forall|x: u32|
            disputed_set(pre, c).contains(x) ==> recorded_amount(post, x) == recorded_amount(
                pre,
                x,
            ),
    ensures
        disputed_sum(post, c) == disputed_sum(pre, c),
{
    broadcast use vstd::set_lib::lemma_set_subset_finite;

    assert(disputed_set(pre, c).subset_of(pre.states.dom()));
    lemma_fold_sum_congruent(disputed_set(pre, c), post, pre, 0);
}

/// A client with no account has no recorded transactions at all, so no
/// open disputes and a zero disputed total.
proof fn lemma_no_account_no_disputes(m: LedgerV, c: u16)
    requires
        m.wf(),
        !m.accounts.contains_key(c),
    ensures
        disputed_set(m, c) =~= Set::<u32>::empty(),
        disputed_sum(m, c) == 0,
{
    assert(disputed_set(m, c) =~= Set::<u32>::empty());
    vstd::set::fold::lemma_fold_empty::<u32, int>(0, sum_step(m));
}

/// A deposit keeps the ledger balanced, provided its transaction id is
/// fresh.
proof fn lemma_deposit_balanced(pre: LedgerV, t: TransactionV)
    requires
        balanced(pre),
        t.tpe is Deposit,
        !pre.history.contains_key(t.tx),
    ensures
        balanced(spec_apply_deposit(pre, t).0),
{
    broadcast use vstd::set_lib::lemma_set_subset_finite;

    lemma_deposit_wf(pre, t);
    let post = spec_apply_deposit(pre, t).0;
    assert forall|c: u16| #[trigger] post.accounts.contains_key(c) implies post.accounts[c].held
        == disputed_sum(post, c) by {
        if pre.accounts.contains_key(c) {
            assert(disputed_set(post, c) =~= disputed_set(pre, c));
            assert(disputed_set(pre, c).subset_of(pre.states.dom()));
            lemma_fold_sum_congruent(disputed_set(pre, c), post, pre, 0);
        } else {
            lemma_no_account_no_disputes(pre, c);
            assert(disputed_set(post, c) =~= disputed_set(pre, c));
            lemma_fold_sum_congruent(disputed_set(pre, c), post, pre, 0);
        }
    }
}

/// A withdrawal keeps the ledger balanced, provided its transaction id
/// is fresh.
proof fn lemma_withdrawal_balanced(pre: LedgerV, t: TransactionV)
    requires
        balanced(pre),
        t.tpe is Withdrawal,
        !pre.history.contains_key(t.tx),
    ensures
        balanced(spec_apply_withdrawal(pre, t).0),
{
    broadcast use vstd::set_lib::lemma_set_subset_finite;

    lemma_withdrawal_wf(pre, t);
    let post = spec_apply_withdrawal(pre, t).0;
    assert forall|c: u16| #[trigger] post.accounts.contains_key(c) implies post.accounts[c].held
        == disputed_sum(post, c) by {
        assert(disputed_set(post, c) =~= disputed_set(pre, c));
        assert(disputed_set(pre, c).subset_of(pre.states.dom()));
        lemma_fold_sum_congruent(disputed_set(pre, c), post, pre, 0);
    }
}

/// A dispute keeps the ledger balanced: when it succeeds, the disputed
/// amount enters both the held balance and the disputed total.
proof fn lemma_dispute_balanced(pre: LedgerV, t: TransactionV)
    requires
        balanced(pre),
        t.tpe is Dispute,
    ensures
        balanced(spec_apply_dispute(pre, t).0),
{
    broadcast use vstd::set_lib::lemma_set_subset_finite;

    lemma_dispute_wf(pre, t);
    let post = spec_apply_dispute(pre, t).0;
    if post != pre {
        lemma_sum_step_commutative(pre);
        assert(sum_step(post) =~= sum_step(pre));
        assert forall|c: u16| #[trigger] post.accounts.contains_key(c) implies post.accounts[
            c].held == disputed_sum(post, c) by {
            assert(pre.states.contains_key(t.tx));
            if c == t.client {
                let s0 = disputed_set(pre, c);
                assert(s0.subset_of(pre.states.dom()));
                assert(!s0.contains(t.tx));
                assert(disputed_set(post, c) =~= s0.insert(t.tx));
                vstd::set::fold::lemma_fold_insert(s0, 0, sum_step(pre), t.tx);
            } else {
                assert(disputed_set(post, c) =~= disputed_set(pre, c));
                lemma_sum_same(pre, post, c);
            }
        }
    }
}

/// A resolve keeps the ledger balanced: when it succeeds, the disputed
/// amount leaves both the held balance and the disputed total.
proof fn lemma_resolve_balanced(pre: LedgerV, t: TransactionV)
    requires
        balanced(pre),
        t.tpe is Resolve,
    ensures
        balanced(spec_apply_resolve(pre, t).0),
{
    broadcast use vstd::set_lib::lemma_set_subset_finite;

    lemma_resolve_wf(pre, t);
    let post = spec_apply_resolve(pre, t).0;
    if post != pre {
        assert(sum_step(post) =~= sum_step(pre));
        assert forall|c: u16| #[trigger] post.accounts.contains_key(c) implies post.accounts[
            c].held == disputed_sum(post, c) by {
            assert(pre.states.contains_key(t.tx));
            if c == t.client {
                let s0 = disputed_set(pre, c);
                assert(s0.subset_of(pre.states.dom()));
                assert(s0.contains(t.tx));
                assert(disputed_set(post, c) =~= s0.remove(t.tx));
                lemma_fold_sum_remove(s0, pre, t.tx);
            } else {
                assert(disputed_set(post, c) =~= disputed_set(pre, c));
                lemma_sum_same(pre, post, c);
            }
        }
    }
}

/// A chargeback keeps the ledger balanced, exactly as a resolve does.
proof fn lemma_chargeback_balanced(pre: LedgerV, t: TransactionV)
    requires
        balanced(pre),
        t.tpe is Chargeback,
    ensures
        balanced(spec_apply_chargeback(pre, t).0),
{
    broadcast use vstd::set_lib::lemma_set_subset_finite;

    lemma_chargeback_wf(pre, t);
    let post = spec_apply_chargeback(pre, t).0;
    if post != pre {
        assert(sum_step(post) =~= sum_step(pre));
        assert forall|c: u16| #[trigger] post.accounts.contains_key(c) implies post.accounts[
            c].held == disputed_sum(post, c) by {
            assert(pre.states.contains_key(t.tx));
            if c == t.client {
                let s0 = disputed_set(pre, c);
                assert(s0.subset_of(pre.states.dom()));
                assert(s0.contains(t.tx));
                assert(disputed_set(post, c) =~= s0.remove(t.tx));
                lemma_fold_sum_remove(s0, pre, t.tx);
            } else {
                assert(disputed_set(post, c) =~= disputed_set(pre, c));
                lemma_sum_same(pre, post, c);
            }
        }
    }
}

/// The initial ledger is balanced.
pub proof fn law_initial_balanced()
    ensures
        balanced(LedgerV::initial()),
{
    assert forall|c: u16| #[trigger]
        LedgerV::initial().accounts.contains_key(c) implies LedgerV::initial().accounts[c].held
        == disputed_sum(LedgerV::initial(), c) by {
    }
}

/// Applying any record keeps the ledger balanced, provided a deposit or
/// withdrawal carries a transaction id not seen before (ids arrive once
/// per id).
pub proof fn law_apply_preserves_balanced(pre: LedgerV, t: TransactionV)
    requires
        balanced(pre),
        (t.tpe is Deposit || t.tpe is Withdrawal) ==> !pre.history.contains_key(t.tx),
    ensures
        balanced(spec_apply(pre, t).0),
{
    match t.tpe {
        TransactionType::Deposit => lemma_deposit_balanced(pre, t),
        TransactionType::Withdrawal => lemma_withdrawal_balanced(pre, t),
        TransactionType::Dispute => lemma_dispute_balanced(pre, t),
        TransactionType::Resolve => lemma_resolve_balanced(pre, t),
        TransactionType::Chargeback => lemma_chargeback_balanced(pre, t),
    }
}

/// In a balanced ledger the escalation policy never fires for real: the
/// held balance always covers the dispute being settled, every piece of
/// recorded data is in place, and so the only integrity error any record
/// can provoke is a deposit that would overflow the representable
/// balance range.
pub proof fn law_balanced_integrity_errors_are_overflow(pre: LedgerV, t: TransactionV)
    requires
        balanced(pre),
    ensures
        ({
            match spec_apply(pre, t).1 {
                Ok(_) => true,
                Err(e) => match e {
                    CephalopodErrorV::TransactionError { .. } => true,
                    CephalopodErrorV::IntegrityError { error, .. } => {
                        &&& error matches IntegrityErrorV::UnexpectedAccountError { error: ae }
                        &&& ae is BalanceOverflow
                        &&& t.tpe is Deposit
                    },
                },
            }
        }),
{
    if t.tpe is Dispute || t.tpe is Resolve || t.tpe is Chargeback {
        if pre.history.contains_key(t.tx) {
            assert(pre.states.contains_key(t.tx));
        }
    }
    if (t.tpe is Resolve || t.tpe is Chargeback) && pre.history.contains_key(t.tx)
        && pre.states[t.tx] is Disputed && pre.history[t.tx].client == t.client
        && pre.accounts.contains_key(t.client) {
        assert(disputed_set(pre, t.client).contains(t.tx));
        lemma_disputed_sum_covers(pre, t.client, t.tx);
    }
}

} // verus!
