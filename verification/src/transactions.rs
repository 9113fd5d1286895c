//! Transaction logic: admission rules and state transitions for wallet
//! creation, transfer proposal and transfer acceptance.
//!
//! Every transaction kind is checked twice.  `verify` is the stateless
//! admission rule: it consults only the transaction's own fields and is
//! evaluated once, before the transaction enters a block.  `execute` is the
//! stateful rule: it runs at block-application time against the current
//! ledger, re-deriving proof inputs from the balances as they are *now*,
//! since earlier transactions may have changed them.  A failed `execute`
//! leaves the ledger exactly as it was: execution is all-or-nothing per
//! transaction.

use vstd::prelude::*;

use crate::config::ServiceConfig;
use crate::crypto::{
    csub, in_range, Commitment, EncryptedData, PublicKey, Signature, SimpleRangeProof,
    TransferId,
};
use crate::ledger::{
    apply_accept_at, committed_total, debited, has_live_transfer, has_transfer, has_wallet,
    transfer_index, wallet_index, wf, Ledger, LedgerModel, PendingTransfer, TransferStatus,
    WalletInfo,
};

verus! {

/// Errors that can occur during transaction execution.
#[derive(Clone, Copy, Debug, Hash, PartialEq, Eq, Structural)]
pub enum Error {
    /// Wallet already exists.  Can occur in `CreateWallet`.
    WalletExists,
    /// The sender of a transfer is not registered.  Can occur in `Transfer`.
    UnregisteredSender,
    /// The receiver of a transfer is not registered.  Can occur in
    /// `Transfer`.
    UnregisteredReceiver,
    /// The range proof for the sender's sufficient account balance is
    /// incorrect.  Can occur in `Transfer`.
    IncorrectProof,
    /// An `Accept` transaction references an unknown transfer.  Can occur in
    /// `Accept`.
    UnknownTransfer,
    /// The author of an `Accept` transaction differs from the receiver of
    /// the referenced transfer.  Can occur in `Accept`.
    UnauthorizedAccept,
}

/// The stable machine-checkable code of each error variant.  Codes are part
/// of the persisted execution result and must remain stable across versions;
/// the gap before `UnauthorizedAccept` is reserved for retired variants.
pub open spec fn error_code(e: Error) -> u8 {
    match e {
        Error::WalletExists => 0,
        Error::UnregisteredSender => 1,
        Error::UnregisteredReceiver => 2,
        Error::IncorrectProof => 3,
        Error::UnknownTransfer => 4,
        Error::UnauthorizedAccept => 7,
    }
}

impl Error {
    /// The stable numeric code recorded as the transaction's outcome.
    pub fn code(&self) -> (r: u8)
        ensures
            r == error_code(*self),
    {
        match self {
            Error::WalletExists => 0,
            Error::UnregisteredSender => 1,
            Error::UnregisteredReceiver => 2,
            Error::IncorrectProof => 3,
            Error::UnknownTransfer => 4,
            Error::UnauthorizedAccept => 7,
        }
    }
}

/// What the block-execution host supplies about the transaction being
/// applied: the height of the containing block and the transaction's content
/// hash, which identifies the escrow entry a transfer creates.
#[derive(Clone, Copy, Debug, PartialEq, Eq, Structural)]
pub struct TxContext {
    /// Height of the block containing the transaction.
    pub height: u64,
    /// Content hash of the transaction.
    pub tx_hash: TransferId,
}

/// Transaction for creating a new wallet.
///
/// Specifies only the verification key used to check digital signatures of
/// transactions authored by the wallet owner; the owner's public encryption
/// key is deterministically derived from it.
#[derive(Clone, Copy, Debug, PartialEq, Eq, Structural)]
pub struct CreateWallet {
    /// Signing key for the wallet.
    pub key: PublicKey,
    /// Signature over the transaction.
    pub signature: Signature,
}

impl CreateWallet {
    /// Stateless admission rule: the signature must validate under `key`.
    pub fn verify(&self) -> (r: bool)
        ensures
            r == (self.signature.author == self.key),
    {
        self.signature.is_valid_under(&self.key)
    }

    /// Stateful effect: registers the wallet with a commitment to zero as
    /// its balance; fails with `WalletExists` iff a wallet for `key` is
    /// already registered, leaving the ledger unchanged.
    pub fn execute(&self, ledger: &mut Ledger) -> (r: Result<(), Error>)
        requires
            old(ledger).wf(),
        ensures
            final(ledger).wf(),
            r is Ok <==> !has_wallet(old(ledger)@.wallets, self.key),
            r is Err ==> r == Err::<(), Error>(Error::WalletExists) && final(ledger)@ == old(
                ledger,
            )@,
            r is Ok ==> final(ledger)@.wallets == old(ledger)@.wallets.push(
                crate::ledger::new_wallet(self.key),
            ) && final(ledger)@.pending == old(ledger)@.pending,
            committed_total(final(ledger)@) == committed_total(old(ledger)@),
    {
        ledger.create_wallet(&self.key)
    }
}

/// Transfer from one wallet to another.
#[derive(Clone, Copy, Debug, PartialEq, Eq, Structural)]
pub struct Transfer {
    /// Public key of the sender; the transaction must be signed with the
    /// corresponding secret key.
    pub from: PublicKey,
    /// Public key of the receiver.
    pub to: PublicKey,
    /// Relative delay, in blocks counted from the block containing this
    /// transfer, to wait for acceptance from the receiver.  If the transfer
    /// is not accepted when the delay expires, it is automatically rolled
    /// back.
    pub rollback_delay: u32,
    /// Commitment to the transferred amount.
    pub amount: Commitment,
    /// Proof that the amount is at least the configured floor.
    pub amount_proof: SimpleRangeProof,
    /// Proof that the sender's balance is sufficient relative to the
    /// amount.
    pub sufficient_balance_proof: SimpleRangeProof,
    /// Encryption of the opening for `amount`, readable by the receiver.
    pub encrypted_data: EncryptedData,
    /// Signature over the transaction.
    pub signature: Signature,
}

/// The stateless proof obligation of a transfer: `amount_proof` certifies
/// the commitment `amount - commitment(min_transfer_amount, 0)` and that
/// commitment's committed residue is non-negative — the transferred amount
/// is at least the configured floor.
pub open spec fn stateless_ok(t: Transfer, config: ServiceConfig) -> bool {
    let floor = Commitment { value: config.min_transfer_amount, blinding: 0u64 };
    t.amount_proof.target == csub(t.amount, floor) && in_range(csub(t.amount, floor).value)
}

/// The stateful proof obligation of a transfer: `sufficient_balance_proof`
/// certifies the commitment `balance - amount` for the sender's *current*
/// balance and that commitment's committed residue is non-negative — the
/// sender's balance covers the amount.
pub open spec fn stateful_ok(t: Transfer, balance: Commitment) -> bool {
    t.sufficient_balance_proof.target == csub(balance, t.amount) && in_range(
        csub(balance, t.amount).value,
    )
}

/// The full stateless admission rule for a transfer: the requested delay is
/// within the configured half-open bounds, the endpoints differ, the
/// signature validates under the sender's key, and the amount-floor proof
/// checks out.
pub open spec fn admissible(t: Transfer, config: ServiceConfig) -> bool {
    &&& config.rollback_delay_bounds.start <= t.rollback_delay
    &&& t.rollback_delay < config.rollback_delay_bounds.end
    &&& t.from != t.to
    &&& t.signature.author == t.from
    &&& stateless_ok(t, config)
}

/// Execution outcome of a transfer against ledger `m`: both endpoints must
/// be registered, and the sufficiency proof must hold against the sender's
/// current balance.
pub open spec fn transfer_outcome(m: LedgerModel, t: Transfer) -> Result<(), Error> {
    if !has_wallet(m.wallets, t.from) {
        Err(Error::UnregisteredSender)
    } else if !has_wallet(m.wallets, t.to) {
        Err(Error::UnregisteredReceiver)
    } else if !stateful_ok(t, m.wallets[wallet_index(m.wallets, t.from)].balance_commitment) {
        Err(Error::IncorrectProof)
    } else {
        Ok(())
    }
}

/// The escrow record a successful transfer creates: pending, expiring
/// `rollback_delay` blocks after the block that applied it.
pub open spec fn escrow_entry(t: Transfer, id: TransferId, height: u64) -> PendingTransfer {
    PendingTransfer {
        id,
        sender: t.from,
        receiver: t.to,
        amount_commitment: t.amount,
        encrypted_opening: t.encrypted_data,
        created_at_height: height,
        expires_at_height: (height + t.rollback_delay) as u64,
        status: TransferStatus::Pending,
    }
}

/// Effect of executing a transfer: on success the sender is debited
/// immediately and the amount is held in escrow as a new pending record; on
/// failure the ledger is unchanged.
pub open spec fn transfer_apply(m: LedgerModel, t: Transfer, id: TransferId, height: u64) -> LedgerModel {
    if transfer_outcome(m, t) is Ok {
        let si = wallet_index(m.wallets, t.from);
        LedgerModel {
            wallets: m.wallets.update(si, debited(m.wallets[si], t.amount)),
            pending: m.pending.push(escrow_entry(t, id, height)),
        }
    } else {
        m
    }
}

impl Transfer {
    /// Stateless verification of the transfer's proof material alone: the
    /// amount-floor range proof, checked against the commitment
    /// `amount - commitment(min_transfer_amount, 0)`.
    pub fn verify_stateless(&self, config: &ServiceConfig) -> (r: bool)
        ensures
            r == stateless_ok(*self, *config),
    {
        let floor = Commitment::with_no_blinding(config.min_transfer_amount);
        self.amount_proof.verify(&self.amount.sub(&floor))
    }

    /// Stateful verification against the sender's current balance: the
    /// sufficiency range proof, checked against `balance - amount`.
    pub fn verify_stateful(&self, sender: &WalletInfo) -> (r: bool)
        ensures
            r == stateful_ok(*self, sender.balance),
    {
        let remaining_balance = sender.balance.sub(&self.amount);
        self.sufficient_balance_proof.verify(&remaining_balance)
    }

    /// Stateless admission rule, checked once before the transfer enters a
    /// block: delay bounds, distinct endpoints, the sender's signature, and
    /// the amount-floor proof.
    pub fn verify(&self, config: &ServiceConfig) -> (r: bool)
        ensures
            r == admissible(*self, *config),
    {
        if !config.delay_admissible(self.rollback_delay) {
            return false;
        }
        self.from.id != self.to.id && self.signature.is_valid_under(&self.from)
            && self.verify_stateless(config)
    }

    /// Stateful effect at block-application time.  The sufficiency proof is
    /// re-checked against the sender's *current* balance — mandatory,
    /// because the balance may have changed since the transfer was authored.
    /// On success the sender is debited immediately and the amount is
    /// escrowed in a new pending record; on any failure the ledger is
    /// unchanged.
    pub fn execute(&self, ledger: &mut Ledger, ctx: &TxContext) -> (r: Result<(), Error>)
        requires
            old(ledger).wf(),
            // the host applies each transaction at most once, so its content
            // hash is fresh
            !has_transfer(old(ledger)@.pending, ctx.tx_hash),
            // the expiry height fits the height type
            ctx.height as int + self.rollback_delay as int <= u64::MAX as int,
        ensures
            final(ledger).wf(),
            r == transfer_outcome(old(ledger)@, *self),
            final(ledger)@ == transfer_apply(old(ledger)@, *self, ctx.tx_hash, ctx.height),
            committed_total(final(ledger)@) == committed_total(old(ledger)@),
            r is Err ==> final(ledger)@ == old(ledger)@,
    {
        let sender_index = match ledger.find_wallet(&self.from) {
            Some(i) => i,
            None => {
                return Err(Error::UnregisteredSender);
            },
        };
        proof {
            crate::ledger::lemma_wallet_index_agrees(ledger@.wallets, self.from, sender_index as int);
        }
        let receiver_index = match ledger.find_wallet(&self.to) {
            Some(i) => i,
            None => {
                return Err(Error::UnregisteredReceiver);
            },
        };
        let sender = ledger.wallets[sender_index];
        if !self.verify_stateful(&sender.info()) {
            return Err(Error::IncorrectProof);
        }
        let entry = PendingTransfer {
            id: ctx.tx_hash,
            sender: self.from,
            receiver: self.to,
            amount_commitment: self.amount,
            encrypted_opening: self.encrypted_data,
            created_at_height: ctx.height,
            expires_at_height: ctx.height + (self.rollback_delay as u64),
            status: TransferStatus::Pending,
        };
        proof {
            lemma_transfer_apply_preserves(ledger@, *self, ctx.tx_hash, ctx.height);
            assert(entry == escrow_entry(*self, ctx.tx_hash, ctx.height));
        }
        ledger.update_sender(sender_index, &self.amount);
        proof {
            assert(ledger@.wallets[sender_index as int].verification_key == self.from);
            assert(ledger@.wallets[receiver_index as int].verification_key == self.to);
            assert(has_wallet(ledger@.wallets, entry.sender));
            assert(has_wallet(ledger@.wallets, entry.receiver));
        }
        ledger.add_unaccepted_payment(entry);
        proof {
            assert(ledger@ =~= transfer_apply(old(ledger)@, *self, ctx.tx_hash, ctx.height));
        }
        Ok(())
    }
}

/// Executing a transfer preserves well-formedness and the conserved total,
/// whatever its outcome.
pub proof fn lemma_transfer_apply_preserves(m: LedgerModel, t: Transfer, id: TransferId, height: u64)
    requires
        wf(m),
        !has_transfer(m.pending, id),
    ensures
        wf(transfer_apply(m, t, id, height)),
        committed_total(transfer_apply(m, t, id, height)) == committed_total(m),
{
    if transfer_outcome(m, t) is Ok {
        let si = wallet_index(m.wallets, t.from);
        assert(0 <= si < m.wallets.len() && m.wallets[si].verification_key == t.from);
        let w2 = debited(m.wallets[si], t.amount);
        let entry = escrow_entry(t, id, height);
        let mid = LedgerModel { wallets: m.wallets.update(si, w2), pending: m.pending };
        crate::ledger::lemma_wf_update_wallet(m, si, w2);
        assert(has_wallet(mid.wallets, entry.sender)) by {
            assert(mid.wallets[si].verification_key == t.from);
        }
        assert(has_wallet(mid.wallets, entry.receiver)) by {
            let j = choose|j: int|
                0 <= j < m.wallets.len() && m.wallets[j].verification_key == t.to;
            assert(mid.wallets[j].verification_key == t.to);
        }
        crate::ledger::lemma_wf_push_pending(mid, entry);
        crate::ledger::lemma_wallet_sum_update(m.wallets, si, w2);
        crate::ledger::lemma_escrow_sum_push(m.pending, entry);
        let s = crate::ledger::wallet_sum(m.wallets) + crate::ledger::escrow_sum(m.pending);
        let bal = m.wallets[si].balance_commitment.value;
        let a = t.amount.value;
        let d = crate::crypto::gsub(bal, a) - bal + a;
        let mm = transfer_apply(m, t, id, height);
        assert(mm == LedgerModel { wallets: mid.wallets, pending: m.pending.push(entry) });
        assert(crate::ledger::wallet_sum(mm.wallets) + crate::ledger::escrow_sum(mm.pending)
            == s + d);
        crate::ledger::lemma_total_shift(s, d);
    }
}

/// Transaction to accept an incoming transfer.
#[derive(Clone, Copy, Debug, PartialEq, Eq, Structural)]
pub struct Accept {
    /// Public key of the receiver of the transfer.
    pub receiver: PublicKey,
    /// Content hash of the transfer transaction being accepted.
    pub transfer_id: TransferId,
    /// Signature over the transaction.
    pub signature: Signature,
}

/// Execution outcome of an acceptance against ledger `m`: there must be a
/// live (still pending) transfer under `transfer_id` — an accepted or
/// rolled-back transfer fails exactly like a nonexistent one, which is what
/// guarantees at-most-once acceptance — and its receiver must be the
/// transaction's author.
pub open spec fn accept_outcome(m: LedgerModel, a: Accept) -> Result<(), Error> {
    if !has_live_transfer(m.pending, a.transfer_id) {
        Err(Error::UnknownTransfer)
    } else if m.pending[transfer_index(m.pending, a.transfer_id)].receiver != a.receiver {
        Err(Error::UnauthorizedAccept)
    } else {
        Ok(())
    }
}

/// Effect of executing an acceptance: on success the escrowed amount is
/// credited to the receiver and the record becomes `Accepted`; on failure
/// the ledger is unchanged.
pub open spec fn accept_apply(m: LedgerModel, a: Accept) -> LedgerModel {
    if accept_outcome(m, a) is Ok {
        apply_accept_at(m, transfer_index(m.pending, a.transfer_id))
    } else {
        m
    }
}

impl Accept {
    /// Stateless admission rule: the signature must validate under the
    /// receiver's key.
    pub fn verify(&self) -> (r: bool)
        ensures
            r == (self.signature.author == self.receiver),
    {
        self.signature.is_valid_under(&self.receiver)
    }

    /// Stateful effect: credits the escrowed amount to the receiver and
    /// marks the transfer accepted.  Fails with `UnknownTransfer` if no
    /// live transfer is stored under `transfer_id`, and with
    /// `UnauthorizedAccept` if the author is not that transfer's receiver;
    /// on any failure the ledger is unchanged.
    pub fn execute(&self, ledger: &mut Ledger) -> (r: Result<(), Error>)
        requires
            old(ledger).wf(),
        ensures
            final(ledger).wf(),
            r == accept_outcome(old(ledger)@, *self),
            final(ledger)@ == accept_apply(old(ledger)@, *self),
            committed_total(final(ledger)@) == committed_total(old(ledger)@),
            r is Err ==> final(ledger)@ == old(ledger)@,
    {
        let transfer = match ledger.maybe_transfer(&self.transfer_id) {
            Some(t) => t,
            None => {
                return Err(Error::UnknownTransfer);
            },
        };
        if transfer.receiver.id != self.receiver.id {
            return Err(Error::UnauthorizedAccept);
        }
        let r = ledger.accept_payment(&self.transfer_id);
        proof {
            assert(transfer.receiver == self.receiver);
            assert(accept_outcome(old(ledger)@, *self) is Ok);
            assert(r is Ok);
        }
        match r {
            Ok(()) => Ok(()),
            Err(e) => Err(e),
        }
    }
}

} // verus!
