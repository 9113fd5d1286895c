//! Protocol-level theorems: properties that relate several transitions,
//! proved from the same specifications the executable operations are
//! verified against.
//!
//! Conservation of the committed total is stated directly on each mutating
//! operation (`CreateWallet::execute`, `Transfer::execute`,
//! `Accept::execute`, `Ledger::process_expiry`) as the postcondition that
//! [`crate::ledger::committed_total`] is unchanged; the lemmas here cover
//! the properties that span more than one transition.

use vstd::prelude::*;

use crate::ledger::{
    committed_total, expired, expiry_apply, has_live_transfer, has_transfer, has_wallet,
    lemma_accept_at_preserves, lemma_sweep_no_op, lemma_sweep_preserves, lemma_wallet_sum_push,
    lemma_wf_push_wallet, new_wallet, transfer_index, wf, LedgerModel, TransferStatus,
};
use crate::transactions::{
    accept_apply, accept_outcome, lemma_transfer_apply_preserves, transfer_apply, Accept,
    CreateWallet, Error, Transfer,
};
use crate::crypto::TransferId;

verus! {

/// Acceptance succeeds at most once: once an acceptance of `transfer_id`
/// has executed successfully, executing the same acceptance again — or any
/// other acceptance of the same transfer — fails with `UnknownTransfer`,
/// exactly as if the transfer had never existed.
pub proof fn lemma_accept_at_most_once(m: LedgerModel, a: Accept, b: Accept)
    requires
        wf(m),
        accept_outcome(m, a) is Ok,
        b.transfer_id == a.transfer_id,
    ensures
        accept_outcome(accept_apply(m, a), b) == Err::<(), Error>(Error::UnknownTransfer),
{
    let ti = transfer_index(m.pending, a.transfer_id);
    let i0 = choose|i: int|
        0 <= i < m.pending.len() && m.pending[i].id == a.transfer_id && m.pending[i].status
            is Pending;
    assert(0 <= ti < m.pending.len() && m.pending[ti].id == a.transfer_id);
    assert(ti == i0);
    lemma_accept_at_preserves(m, ti);
    let m1 = accept_apply(m, a);
    assert forall|j: int|
        0 <= j < m1.pending.len() && #[trigger] m1.pending[j].id == a.transfer_id implies !(
    m1.pending[j].status is Pending) by {
        if j != ti {
            assert(m1.pending[j] == m.pending[j]);
            assert(j == ti);
        }
    }
    assert(!has_live_transfer(m1.pending, b.transfer_id));
}

/// The expiry sweep is idempotent: applying it twice at the same height
/// produces exactly the state of applying it once — every eligible transfer
/// is reversed, and its sender credited, exactly once.
pub proof fn lemma_expiry_idempotent(m: LedgerModel, height: u64)
    requires
        wf(m),
    ensures
        expiry_apply(expiry_apply(m, height), height) == expiry_apply(m, height),
{
    let n = m.pending.len() as int;
    lemma_sweep_preserves(m, height, n);
    let m1 = expiry_apply(m, height);
    assert forall|j: int|
        0 <= j < m1.pending.len() implies !expired(#[trigger] m1.pending[j], height) by {
        if expired(m.pending[j], height) {
            assert(m1.pending[j].status is RolledBack);
        } else {
            assert(m1.pending[j] == m.pending[j]);
        }
    }
    lemma_sweep_no_op(m1, height, m1.pending.len() as int);
}

/// A transfer reversed by the sweep at one height is never processed again
/// by a sweep at any later (or equal, or earlier) height: its record stays
/// `RolledBack` and contributes no further credit, however many blocks
/// elapse.
pub proof fn lemma_no_recredit(m: LedgerModel, h1: u64, h2: u64)
    requires
        wf(m),
    ensures
        forall|j: int|
            0 <= j < m.pending.len() && expired(#[trigger] m.pending[j], h1) ==> expiry_apply(
                expiry_apply(m, h1),
                h2,
            ).pending[j] == expiry_apply(m, h1).pending[j],
        forall|j: int|
            0 <= j < m.pending.len() && expired(#[trigger] m.pending[j], h1) ==> expiry_apply(
                m,
                h1,
            ).pending[j].status is RolledBack,
{
    let n = m.pending.len() as int;
    lemma_sweep_preserves(m, h1, n);
    let m1 = expiry_apply(m, h1);
    lemma_sweep_preserves(m1, h2, m1.pending.len() as int);
    assert forall|j: int|
        0 <= j < m.pending.len() && expired(#[trigger] m.pending[j], h1) implies expiry_apply(
        m1,
        h2,
    ).pending[j] == m1.pending[j] by {
        assert(m1.pending[j] == crate::ledger::with_status(
            m.pending[j],
            TransferStatus::RolledBack,
        ));
        assert(!expired(m1.pending[j], h2));
    }
}

/// A rolled-back transfer is never accepted: once the expiry sweep has
/// reversed the transfer under `transfer_id`, any acceptance of it fails
/// with `UnknownTransfer`, exactly as if it had never existed — so the
/// escrowed amount that flowed back to the sender can never also reach the
/// receiver.
pub proof fn lemma_no_accept_after_rollback(m: LedgerModel, height: u64, a: Accept)
    requires
        wf(m),
        has_transfer(m.pending, a.transfer_id),
        expired(m.pending[transfer_index(m.pending, a.transfer_id)], height),
    ensures
        accept_outcome(expiry_apply(m, height), a) == Err::<(), Error>(Error::UnknownTransfer),
{
    let ti = transfer_index(m.pending, a.transfer_id);
    assert(0 <= ti < m.pending.len() && m.pending[ti].id == a.transfer_id);
    lemma_sweep_preserves(m, height, m.pending.len() as int);
    let m1 = expiry_apply(m, height);
    assert(m1.pending[ti].status is RolledBack);
    assert forall|j: int|
        0 <= j < m1.pending.len() && #[trigger] m1.pending[j].id == a.transfer_id implies !(
    m1.pending[j].status is Pending) by {
        assert(m1.pending[j].id == m.pending[j].id);
        assert(j == ti);
    }
    assert(!has_live_transfer(m1.pending, a.transfer_id));
}

/// An accepted transfer is never reversed: after a successful acceptance,
/// the expiry sweep at any height leaves that record `Accepted` and
/// untouched, so the escrowed amount that reached the receiver can never
/// also flow back to the sender.
pub proof fn lemma_no_rollback_after_accept(m: LedgerModel, a: Accept, height: u64)
    requires
        wf(m),
        accept_outcome(m, a) is Ok,
    ensures
        expiry_apply(accept_apply(m, a), height).pending[transfer_index(
            m.pending,
            a.transfer_id,
        )] == accept_apply(m, a).pending[transfer_index(m.pending, a.transfer_id)],
        accept_apply(m, a).pending[transfer_index(m.pending, a.transfer_id)].status is Accepted,
{
    let ti = transfer_index(m.pending, a.transfer_id);
    let i0 = choose|i: int|
        0 <= i < m.pending.len() && m.pending[i].id == a.transfer_id && m.pending[i].status
            is Pending;
    assert(ti == i0);
    lemma_accept_at_preserves(m, ti);
    let m1 = accept_apply(m, a);
    lemma_sweep_preserves(m1, height, m1.pending.len() as int);
    assert(!expired(m1.pending[ti], height));
}

/// One step of the protocol, as the block-application driver performs it: a
/// transaction of one of the three kinds, or the expiry sweep at a height
/// boundary.  A proposal carries the content hash and block height its host
/// supplies; a hash never repeats, so a step that would reuse one is
/// ignored.
pub enum ProtocolStep {
    /// A `CreateWallet` transaction.
    Create(CreateWallet),
    /// A `Transfer` transaction, with its content hash and block height.
    Propose { tx: Transfer, id: TransferId, height: u64 },
    /// An `Accept` transaction.
    Finalize(Accept),
    /// The expiry sweep at a height boundary.
    Expire { height: u64 },
}

/// The ledger after one protocol step; a failing transaction leaves the
/// ledger unchanged.
pub open spec fn step_apply(m: LedgerModel, s: ProtocolStep) -> LedgerModel {
    match s {
        ProtocolStep::Create(c) => {
            if has_wallet(m.wallets, c.key) {
                m
            } else {
                LedgerModel { wallets: m.wallets.push(new_wallet(c.key)), pending: m.pending }
            }
        },
        ProtocolStep::Propose { tx, id, height } => {
            if has_transfer(m.pending, id) {
                m
            } else {
                transfer_apply(m, tx, id, height)
            }
        },
        ProtocolStep::Finalize(a) => accept_apply(m, a),
        ProtocolStep::Expire { height } => expiry_apply(m, height),
    }
}

/// The ledger after a whole history of protocol steps, applied in order.
pub open spec fn run(m: LedgerModel, steps: Seq<ProtocolStep>) -> LedgerModel
    decreases steps.len(),
{
    if steps.len() == 0 {
        m
    } else {
        step_apply(run(m, steps.drop_last()), steps.last())
    }
}

/// Accepting preserves well-formedness and the conserved total, whatever
/// the outcome.
pub proof fn lemma_accept_apply_preserves(m: LedgerModel, a: Accept)
    requires
        wf(m),
    ensures
        wf(accept_apply(m, a)),
        committed_total(accept_apply(m, a)) == committed_total(m),
{
    if accept_outcome(m, a) is Ok {
        let ti = transfer_index(m.pending, a.transfer_id);
        let i0 = choose|i: int|
            0 <= i < m.pending.len() && m.pending[i].id == a.transfer_id && m.pending[i].status
                is Pending;
        assert(ti == i0);
        lemma_accept_at_preserves(m, ti);
    }
}

/// One protocol step preserves well-formedness and the conserved total.
pub proof fn lemma_step_preserves(m: LedgerModel, s: ProtocolStep)
    requires
        wf(m),
    ensures
        wf(step_apply(m, s)),
        committed_total(step_apply(m, s)) == committed_total(m),
{
    match s {
        ProtocolStep::Create(c) => {
            if !has_wallet(m.wallets, c.key) {
                lemma_wf_push_wallet(m, new_wallet(c.key));
                lemma_wallet_sum_push(m.wallets, new_wallet(c.key));
            }
        },
        ProtocolStep::Propose { tx, id, height } => {
            if !has_transfer(m.pending, id) {
                lemma_transfer_apply_preserves(m, tx, id, height);
            }
        },
        ProtocolStep::Finalize(a) => {
            lemma_accept_apply_preserves(m, a);
        },
        ProtocolStep::Expire { height } => {
            lemma_sweep_preserves(m, height, m.pending.len() as int);
        },
    }
}

/// Conservation: over every history of wallet creations, transfer
/// proposals, acceptances and expiry sweeps, the group residue of the sum
/// of all wallets' committed balances plus all amounts currently escrowed
/// in pending transfers never changes.  Value moves between balances and
/// escrow but is neither created nor destroyed.
pub proof fn lemma_conservation(m: LedgerModel, steps: Seq<ProtocolStep>)
    requires
        wf(m),
    ensures
        wf(run(m, steps)),
        committed_total(run(m, steps)) == committed_total(m),
    decreases steps.len(),
{
    if steps.len() > 0 {
        lemma_conservation(m, steps.drop_last());
        lemma_step_preserves(run(m, steps.drop_last()), steps.last());
    }
}

} // verus!
