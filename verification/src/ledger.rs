//! Ledger state: wallets, pending transfers, and the storage-level
//! operations the transaction protocol performs on them.

use vstd::prelude::*;

use vstd::arithmetic::div_mod::{lemma_mod_add_multiples_vanish, lemma_mod_sub_multiples_vanish};

use crate::crypto::{
    cadd, csub, derived_key, Commitment, EncryptedData, EncryptionKey, PublicKey, TransferId,
};
use crate::transactions::Error;

verus! {

/// Identity and confidential balance holder.
#[derive(Clone, Copy, Debug, PartialEq, Eq, Structural)]
pub struct Wallet {
    /// Public signing key; immutable, unique identifier of the wallet.
    pub verification_key: PublicKey,
    /// Public encryption key, derived from `verification_key` at creation.
    pub encryption_key: EncryptionKey,
    /// Commitment to the wallet's current confidential balance.
    pub balance_commitment: Commitment,
}

/// The part of a wallet record exposed to stateful proof checks.
#[derive(Clone, Copy, Debug, PartialEq, Eq, Structural)]
pub struct WalletInfo {
    /// Commitment to the wallet's current confidential balance.
    pub balance: Commitment,
}

impl Wallet {
    /// The wallet data consulted when re-checking a sufficient-balance proof.
    pub fn info(&self) -> (r: WalletInfo)
        ensures
            r.balance == self.balance_commitment,
    {
        WalletInfo { balance: self.balance_commitment }
    }
}

/// Lifecycle state of a pending transfer: exactly one forward transition
/// from `Pending` is permitted, and both targets are terminal.
#[derive(Clone, Copy, Debug, PartialEq, Eq, Structural)]
pub enum TransferStatus {
    /// Escrowed, awaiting acceptance or expiry.
    Pending,
    /// Credited to the receiver; terminal.
    Accepted,
    /// Reversed to the sender by the expiry sweep; terminal.
    RolledBack,
}

/// A proposed, not-yet-finalized transfer held in escrow.
#[derive(Clone, Copy, Debug, PartialEq, Eq, Structural)]
pub struct PendingTransfer {
    /// Content hash of the transfer transaction; unique.
    pub id: TransferId,
    /// Wallet the escrowed amount was debited from.
    pub sender: PublicKey,
    /// Wallet the amount is destined for.
    pub receiver: PublicKey,
    /// Commitment to the transferred amount.
    pub amount_commitment: Commitment,
    /// Receiver-only-decryptable opening material for `amount_commitment`.
    pub encrypted_opening: EncryptedData,
    /// Height of the block that applied the transfer.
    pub created_at_height: u64,
    /// First height at which an unaccepted transfer is rolled back.
    pub expires_at_height: u64,
    /// Lifecycle state.
    pub status: TransferStatus,
}

/// Mathematical model of the ledger: the wallet records and the pending
/// transfer records, in storage order.
#[verifier::ext_equal]
pub struct LedgerModel {
    pub wallets: Seq<Wallet>,
    pub pending: Seq<PendingTransfer>,
}

/// Whether some wallet in `ws` is keyed by `key`.
pub open spec fn has_wallet(ws: Seq<Wallet>, key: PublicKey) -> bool {
    exists|i: int| 0 <= i < ws.len() && ws[i].verification_key == key
}

/// The index of the wallet keyed by `key` (unique under [`wf`]).
pub open spec fn wallet_index(ws: Seq<Wallet>, key: PublicKey) -> int {
    choose|i: int| 0 <= i < ws.len() && ws[i].verification_key == key
}

/// Whether some pending-transfer record in `ps` carries `id`.
pub open spec fn has_transfer(ps: Seq<PendingTransfer>, id: TransferId) -> bool {
    exists|i: int| 0 <= i < ps.len() && ps[i].id == id
}

/// The index of the pending-transfer record carrying `id` (unique under
/// [`wf`]).
pub open spec fn transfer_index(ps: Seq<PendingTransfer>, id: TransferId) -> int {
    choose|i: int| 0 <= i < ps.len() && ps[i].id == id
}

/// Whether `ps` holds a live (still `Pending`) transfer under `id`.  An
/// accepted or rolled-back record is indistinguishable here from one that
/// never existed.
pub open spec fn has_live_transfer(ps: Seq<PendingTransfer>, id: TransferId) -> bool {
    exists|i: int|
        0 <= i < ps.len() && ps[i].id == id && ps[i].status is Pending
}

/// Well-formedness of a ledger model: wallet keys are unique, pending
/// transfer ids are unique, and every pending record's endpoints are
/// registered wallets (transfers are only ever created between registered
/// wallets, and wallets are never deleted).
pub open spec fn wf(m: LedgerModel) -> bool {
    &&& forall|i: int, j: int|
        0 <= i < m.wallets.len() && 0 <= j < m.wallets.len() && i != j
            ==> m.wallets[i].verification_key != m.wallets[j].verification_key
    &&& forall|i: int, j: int|
        0 <= i < m.pending.len() && 0 <= j < m.pending.len() && i != j
            ==> m.pending[i].id != m.pending[j].id
    &&& forall|i: int|
        0 <= i < m.pending.len() ==> has_wallet(m.wallets, #[trigger] m.pending[i].sender)
    &&& forall|i: int|
        0 <= i < m.pending.len() ==> has_wallet(m.wallets, #[trigger] m.pending[i].receiver)
}

/// Sum of the committed balance components over all wallets.
pub open spec fn wallet_sum(ws: Seq<Wallet>) -> int
    decreases ws.len(),
{
    if ws.len() == 0 {
        0
    } else {
        wallet_sum(ws.drop_last()) + ws.last().balance_commitment.value
    }
}

/// What one pending-transfer record currently escrows: its committed amount
/// while it is `Pending`, nothing once it is terminal.
pub open spec fn escrowed(p: PendingTransfer) -> int {
    if p.status is Pending {
        p.amount_commitment.value as int
    } else {
        0
    }
}

/// Sum of the escrowed amount components over all pending records.
pub open spec fn escrow_sum(ps: Seq<PendingTransfer>) -> int
    decreases ps.len(),
{
    if ps.len() == 0 {
        0
    } else {
        escrow_sum(ps.drop_last()) + escrowed(ps.last())
    }
}

/// The conserved quantity of the ledger: the group residue of the sum of all
/// wallets' committed balances plus all amounts currently held in escrow.
/// Every protocol transition preserves it.
pub open spec fn committed_total(m: LedgerModel) -> int {
    (wallet_sum(m.wallets) + escrow_sum(m.pending)) % crate::crypto::group_order()
}

/// Durable, transactional wallet / pending-transfer store.
pub struct Ledger {
    /// Wallet records, in creation order.
    pub wallets: Vec<Wallet>,
    /// Pending-transfer records, in creation order.
    pub pending: Vec<PendingTransfer>,
}

impl View for Ledger {
    type V = LedgerModel;

    open spec fn view(&self) -> LedgerModel {
        LedgerModel { wallets: self.wallets@, pending: self.pending@ }
    }
}

impl Ledger {
    /// Well-formedness of the store; every public operation preserves it.
    pub open spec fn wf(&self) -> bool {
        wf(self@)
    }

    /// An empty ledger: no wallets, no pending transfers.
    pub fn new() -> (r: Ledger)
        ensures
            r.wf(),
            r@.wallets.len() == 0,
            r@.pending.len() == 0,
    {
        Ledger { wallets: Vec::new(), pending: Vec::new() }
    }

    /// Index of the wallet keyed by `key`, if one is registered.
    pub fn find_wallet(&self, key: &PublicKey) -> (r: Option<usize>)
        ensures
            match r {
                Some(i) => i < self@.wallets.len()
                    && self@.wallets[i as int].verification_key == *key,
                None => !has_wallet(self@.wallets, *key),
            },
    {
        let mut i: usize = 0;
        while i < self.wallets.len()
            invariant
                i <= self@.wallets.len(),
                forall|j: int| 0 <= j < i ==> self@.wallets[j].verification_key != *key,
            decreases self@.wallets.len() - i,
        {
            if self.wallets[i].verification_key.id == key.id {
                return Some(i);
            }
            i += 1;
        }
        None
    }

    /// The wallet registered under `key`, if any, as seen by proof checks.
    pub fn wallet(&self, key: &PublicKey) -> (r: Option<WalletInfo>)
        requires
            self.wf(),
        ensures
            match r {
                Some(info) => has_wallet(self@.wallets, *key)
                    && info.balance
                        == self@.wallets[wallet_index(self@.wallets, *key)].balance_commitment,
                None => !has_wallet(self@.wallets, *key),
            },
    {
        match self.find_wallet(key) {
            Some(i) => {
                proof {
                    lemma_wallet_index_agrees(self@.wallets, *key, i as int);
                }
                Some(self.wallets[i].info())
            },
            None => None,
        }
    }

    /// Index of the pending-transfer record carrying `id`, if any.
    pub fn find_transfer(&self, id: &TransferId) -> (r: Option<usize>)
        ensures
            match r {
                Some(i) => i < self@.pending.len() && self@.pending[i as int].id == *id,
                None => !has_transfer(self@.pending, *id),
            },
    {
        let mut i: usize = 0;
        while i < self.pending.len()
            invariant
                i <= self@.pending.len(),
                forall|j: int| 0 <= j < i ==> self@.pending[j].id != *id,
            decreases self@.pending.len() - i,
        {
            if self.pending[i].id.id == id.id {
                return Some(i);
            }
            i += 1;
        }
        None
    }

    /// The pending transfer stored under `id`, restricted to non-terminal
    /// status: an accepted or rolled-back record is reported exactly like a
    /// missing one.
    pub fn maybe_transfer(&self, id: &TransferId) -> (r: Option<PendingTransfer>)
        requires
            self.wf(),
        ensures
            match r {
                Some(p) => has_live_transfer(self@.pending, *id)
                    && p == self@.pending[transfer_index(self@.pending, *id)]
                    && p.id == *id
                    && p.status is Pending,
                None => !has_live_transfer(self@.pending, *id),
            },
    {
        match self.find_transfer(id) {
            Some(i) => {
                proof {
                    lemma_transfer_index_agrees(self@.pending, *id, i as int);
                }
                let p = self.pending[i];
                match p.status {
                    TransferStatus::Pending => Some(p),
                    _ => None,
                }
            },
            None => None,
        }
    }

    /// Register a wallet under `key` with a commitment to zero as its
    /// balance; fails iff a wallet for `key` already exists.
    pub fn create_wallet(&mut self, key: &PublicKey) -> (r: Result<(), Error>)
        requires
            old(self).wf(),
        ensures
            final(self).wf(),
            r is Ok <==> !has_wallet(old(self)@.wallets, *key),
            r is Err ==> r == Err::<(), Error>(Error::WalletExists) && final(self)@ == old(
                self,
            )@,
            r is Ok ==> final(self)@.wallets == old(self)@.wallets.push(new_wallet(*key))
                && final(self)@.pending == old(self)@.pending,
            committed_total(final(self)@) == committed_total(old(self)@),
    {
        match self.find_wallet(key) {
            Some(i) => {
                proof {
                    lemma_wallet_index_agrees(self@.wallets, *key, i as int);
                }
                Err(Error::WalletExists)
            },
            None => {
                let w = Wallet {
                    verification_key: *key,
                    encryption_key: crate::crypto::derive_encryption_key(key),
                    balance_commitment: Commitment::with_no_blinding(0),
                };
                proof {
                    lemma_wf_push_wallet(self@, w);
                    lemma_wallet_sum_push(self@.wallets, w);
                }
                self.wallets.push(w);
                Ok(())
            },
        }
    }

    /// Debit `amount` from the wallet at `sender_index`, placing it in
    /// escrow: the storage half of a transfer proposal.
    pub fn update_sender(&mut self, sender_index: usize, amount: &Commitment)
        requires
            old(self).wf(),
            sender_index < old(self)@.wallets.len(),
        ensures
            final(self).wf(),
            final(self)@.wallets == old(self)@.wallets.update(
                sender_index as int,
                debited(old(self)@.wallets[sender_index as int], *amount),
            ),
            final(self)@.pending == old(self)@.pending,
    {
        let w = self.wallets[sender_index];
        let nb = w.balance_commitment.sub(amount);
        proof {
            lemma_wf_update_wallet(
                self@,
                sender_index as int,
                debited(self@.wallets[sender_index as int], *amount),
            );
        }
        self.wallets[sender_index] = Wallet {
            verification_key: w.verification_key,
            encryption_key: w.encryption_key,
            balance_commitment: nb,
        };
    }

    /// Record a freshly proposed transfer as a pending escrow entry.
    pub fn add_unaccepted_payment(&mut self, entry: PendingTransfer)
        requires
            old(self).wf(),
            !has_transfer(old(self)@.pending, entry.id),
            has_wallet(old(self)@.wallets, entry.sender),
            has_wallet(old(self)@.wallets, entry.receiver),
        ensures
            final(self).wf(),
            final(self)@.pending == old(self)@.pending.push(entry),
            final(self)@.wallets == old(self)@.wallets,
    {
        proof {
            lemma_wf_push_pending(self@, entry);
        }
        self.pending.push(entry);
    }

    /// Credit the escrowed amount of the live transfer stored under
    /// `transfer_id` to its receiver and mark the record accepted; fails iff
    /// no live transfer is stored under that id.
    pub fn accept_payment(&mut self, transfer_id: &TransferId) -> (r: Result<(), Error>)
        requires
            old(self).wf(),
        ensures
            final(self).wf(),
            r is Ok <==> has_live_transfer(old(self)@.pending, *transfer_id),
            r is Err ==> r == Err::<(), Error>(Error::UnknownTransfer) && final(self)@ == old(
                self,
            )@,
            r is Ok ==> final(self)@ == apply_accept_at(
                old(self)@,
                transfer_index(old(self)@.pending, *transfer_id),
            ),
            committed_total(final(self)@) == committed_total(old(self)@),
    {
        let i = match self.find_transfer(transfer_id) {
            Some(i) => i,
            None => {
                return Err(Error::UnknownTransfer);
            },
        };
        proof {
            lemma_transfer_index_agrees(self@.pending, *transfer_id, i as int);
        }
        let p = self.pending[i];
        let still_pending = match p.status {
            TransferStatus::Pending => true,
            _ => false,
        };
        if !still_pending {
            proof {
                assert forall|j: int|
                    0 <= j < self@.pending.len() && self@.pending[j].id == *transfer_id
                        implies !(self@.pending[j].status is Pending) by {
                    assert(j == i);
                }
            }
            return Err(Error::UnknownTransfer);
        }
        let ri = match self.find_wallet(&p.receiver) {
            Some(r) => r,
            None => {
                // unreachable: well-formedness guarantees every pending
                // record's receiver is a registered wallet
                proof {
                    assert(has_wallet(self@.wallets, p.receiver));
                    assert(false);
                }
                return Err(Error::UnknownTransfer);
            },
        };
        proof {
            lemma_wallet_index_agrees(self@.wallets, p.receiver, ri as int);
            lemma_accept_at_preserves(self@, i as int);
        }
        let w = self.wallets[ri];
        self.wallets[ri] = Wallet {
            verification_key: w.verification_key,
            encryption_key: w.encryption_key,
            balance_commitment: w.balance_commitment.add(&p.amount_commitment),
        };
        self.pending[i] = PendingTransfer {
            id: p.id,
            sender: p.sender,
            receiver: p.receiver,
            amount_commitment: p.amount_commitment,
            encrypted_opening: p.encrypted_opening,
            created_at_height: p.created_at_height,
            expires_at_height: p.expires_at_height,
            status: TransferStatus::Accepted,
        };
        proof {
            assert(self@ =~= apply_accept_at(old(self)@, i as int));
        }
        Ok(())
    }

    /// The expiry sweep at `height`: deterministically, in storage order,
    /// every pending transfer whose deadline has elapsed is reversed exactly
    /// once — its escrowed amount is credited back to the sender and the
    /// record becomes `RolledBack`.  Terminal records are never touched.
    pub fn process_expiry(&mut self, height: u64)
        requires
            old(self).wf(),
        ensures
            final(self).wf(),
            final(self)@ == expiry_apply(old(self)@, height),
            committed_total(final(self)@) == committed_total(old(self)@),
    {
        let ghost m0 = self@;
        let n = self.pending.len();
        let mut i: usize = 0;
        while i < n
            invariant
                self.wf(),
                i <= n,
                n == m0.pending.len(),
                self@.pending.len() == n,
                self@ == sweep(m0, height, i as int),
                committed_total(self@) == committed_total(m0),
            decreases n - i,
        {
            let ghost mprev = self@;
            let p = self.pending[i];
            let still_pending = match p.status {
                TransferStatus::Pending => true,
                _ => false,
            };
            if still_pending && p.expires_at_height <= height {
                let si = match self.find_wallet(&p.sender) {
                    Some(s) => s,
                    None => {
                        // unreachable: well-formedness guarantees every
                        // pending record's sender is a registered wallet
                        proof {
                            assert(has_wallet(self@.wallets, p.sender));
                            assert(false);
                        }
                        i += 1;
                        continue ;
                    },
                };
                proof {
                    lemma_wallet_index_agrees(self@.wallets, p.sender, si as int);
                    lemma_roll_back_at_preserves(mprev, i as int, height);
                }
                let w = self.wallets[si];
                self.wallets[si] = Wallet {
                    verification_key: w.verification_key,
                    encryption_key: w.encryption_key,
                    balance_commitment: w.balance_commitment.add(&p.amount_commitment),
                };
                self.pending[i] = PendingTransfer {
                    id: p.id,
                    sender: p.sender,
                    receiver: p.receiver,
                    amount_commitment: p.amount_commitment,
                    encrypted_opening: p.encrypted_opening,
                    created_at_height: p.created_at_height,
                    expires_at_height: p.expires_at_height,
                    status: TransferStatus::RolledBack,
                };
                proof {
                    assert(self@ =~= roll_back_at(mprev, i as int, height));
                }
            } else {
                proof {
                    lemma_roll_back_at_preserves(mprev, i as int, height);
                    assert(self@ == roll_back_at(mprev, i as int, height));
                }
            }
            i += 1;
        }
    }
}

/// The wallet record a successful `CreateWallet` stores: zero balance
/// (committed with zero blinding) and the derived encryption key.
pub open spec fn new_wallet(key: PublicKey) -> Wallet {
    Wallet {
        verification_key: key,
        encryption_key: derived_key(key),
        balance_commitment: Commitment { value: 0u64, blinding: 0u64 },
    }
}

/// `w` with `amount` subtracted from its balance commitment.
pub open spec fn debited(w: Wallet, amount: Commitment) -> Wallet {
    Wallet { balance_commitment: csub(w.balance_commitment, amount), ..w }
}

/// `w` with `amount` added to its balance commitment.
pub open spec fn credited(w: Wallet, amount: Commitment) -> Wallet {
    Wallet { balance_commitment: cadd(w.balance_commitment, amount), ..w }
}

/// `p` moved to lifecycle state `status`.
pub open spec fn with_status(p: PendingTransfer, status: TransferStatus) -> PendingTransfer {
    PendingTransfer { status, ..p }
}

/// Whether the expiry sweep at `height` must reverse `p`: it is still
/// pending and its deadline has elapsed.
pub open spec fn expired(p: PendingTransfer, height: u64) -> bool {
    p.status is Pending && p.expires_at_height <= height
}

/// Effect of the expiry sweep on the single record at index `i`: if that
/// record is pending and its deadline has elapsed, credit the escrowed
/// amount back to the sender and mark the record rolled back; otherwise
/// leave the ledger unchanged.
pub open spec fn roll_back_at(m: LedgerModel, i: int, height: u64) -> LedgerModel {
    if 0 <= i < m.pending.len() && expired(m.pending[i], height) && has_wallet(
        m.wallets,
        m.pending[i].sender,
    ) {
        let p = m.pending[i];
        let si = wallet_index(m.wallets, p.sender);
        LedgerModel {
            wallets: m.wallets.update(si, credited(m.wallets[si], p.amount_commitment)),
            pending: m.pending.update(i, with_status(p, TransferStatus::RolledBack)),
        }
    } else {
        m
    }
}

/// The expiry sweep applied to the first `n` pending records, in storage
/// order.
pub open spec fn sweep(m: LedgerModel, height: u64, n: int) -> LedgerModel
    decreases n,
{
    if n <= 0 {
        m
    } else {
        roll_back_at(sweep(m, height, n - 1), n - 1, height)
    }
}

/// The full expiry sweep at `height`: every pending transfer whose deadline
/// has elapsed is reversed, deterministically in storage order.
pub open spec fn expiry_apply(m: LedgerModel, height: u64) -> LedgerModel {
    sweep(m, height, m.pending.len() as int)
}

/// Replacing one wallet record changes the balance sum by exactly the
/// difference of the two records' committed balances.
pub proof fn lemma_wallet_sum_update(ws: Seq<Wallet>, i: int, w: Wallet)
    requires
        0 <= i < ws.len(),
    ensures
        wallet_sum(ws.update(i, w)) == wallet_sum(ws) - ws[i].balance_commitment.value
            + w.balance_commitment.value,
    decreases ws.len(),
{
    let ws2 = ws.update(i, w);
    if i == ws.len() - 1 {
        assert(ws2.drop_last() =~= ws.drop_last());
    } else {
        lemma_wallet_sum_update(ws.drop_last(), i, w);
        assert(ws2.drop_last() =~= ws.drop_last().update(i, w));
    }
}

/// Appending a wallet record adds its committed balance to the balance sum.
pub proof fn lemma_wallet_sum_push(ws: Seq<Wallet>, w: Wallet)
    ensures
        wallet_sum(ws.push(w)) == wallet_sum(ws) + w.balance_commitment.value,
{
    assert(ws.push(w).drop_last() =~= ws);
}

/// Replacing one pending record changes the escrow sum by exactly the
/// difference of the two records' escrowed amounts.
pub proof fn lemma_escrow_sum_update(ps: Seq<PendingTransfer>, i: int, p: PendingTransfer)
    requires
        0 <= i < ps.len(),
    ensures
        escrow_sum(ps.update(i, p)) == escrow_sum(ps) - escrowed(ps[i]) + escrowed(p),
    decreases ps.len(),
{
    let ps2 = ps.update(i, p);
    if i == ps.len() - 1 {
        assert(ps2.drop_last() =~= ps.drop_last());
    } else {
        lemma_escrow_sum_update(ps.drop_last(), i, p);
        assert(ps2.drop_last() =~= ps.drop_last().update(i, p));
    }
}

/// Appending a pending record adds its escrowed amount to the escrow sum.
pub proof fn lemma_escrow_sum_push(ps: Seq<PendingTransfer>, p: PendingTransfer)
    ensures
        escrow_sum(ps.push(p)) == escrow_sum(ps) + escrowed(p),
{
    assert(ps.push(p).drop_last() =~= ps);
}

/// Shifting a sum by zero or by one group order in either direction leaves
/// its group residue unchanged.
pub proof fn lemma_total_shift(s: int, d: int)
    requires
        d == 0 || d == crate::crypto::group_order() || d == -crate::crypto::group_order(),
    ensures
        (s + d) % crate::crypto::group_order() == s % crate::crypto::group_order(),
{
    if d == crate::crypto::group_order() {
        lemma_mod_add_multiples_vanish(s, 0x1_0000_0000_0000_0000);
    } else if d == -crate::crypto::group_order() {
        lemma_mod_sub_multiples_vanish(s, 0x1_0000_0000_0000_0000);
    }
}

/// Effect of accepting the pending transfer at index `i`: its committed
/// amount is added to the receiver's balance and the record becomes
/// `Accepted`.
pub open spec fn apply_accept_at(m: LedgerModel, i: int) -> LedgerModel {
    let p = m.pending[i];
    let ri = wallet_index(m.wallets, p.receiver);
    LedgerModel {
        wallets: m.wallets.update(ri, credited(m.wallets[ri], p.amount_commitment)),
        pending: m.pending.update(i, with_status(p, TransferStatus::Accepted)),
    }
}

/// Replacing a wallet record by one with the same key preserves
/// well-formedness.
pub proof fn lemma_wf_update_wallet(m: LedgerModel, i: int, w: Wallet)
    requires
        wf(m),
        0 <= i < m.wallets.len(),
        w.verification_key == m.wallets[i].verification_key,
    ensures
        wf(LedgerModel { wallets: m.wallets.update(i, w), pending: m.pending }),
{
    let ws2 = m.wallets.update(i, w);
    assert(forall|j: int|
        0 <= j < m.wallets.len() ==> #[trigger] ws2[j].verification_key
            == m.wallets[j].verification_key);
    assert forall|k: int|
        0 <= k < m.pending.len() implies has_wallet(ws2, #[trigger] m.pending[k].sender) by {
        let j = choose|j: int|
            0 <= j < m.wallets.len() && m.wallets[j].verification_key == m.pending[k].sender;
        assert(ws2[j].verification_key == m.pending[k].sender);
    }
    assert forall|k: int|
        0 <= k < m.pending.len() implies has_wallet(ws2, #[trigger] m.pending[k].receiver) by {
        let j = choose|j: int|
            0 <= j < m.wallets.len() && m.wallets[j].verification_key == m.pending[k].receiver;
        assert(ws2[j].verification_key == m.pending[k].receiver);
    }
}

/// Replacing a pending record by one with the same id and endpoints
/// preserves well-formedness.
pub proof fn lemma_wf_update_pending(m: LedgerModel, i: int, p: PendingTransfer)
    requires
        wf(m),
        0 <= i < m.pending.len(),
        p.id == m.pending[i].id,
        p.sender == m.pending[i].sender,
        p.receiver == m.pending[i].receiver,
    ensures
        wf(LedgerModel { wallets: m.wallets, pending: m.pending.update(i, p) }),
{
    let ps2 = m.pending.update(i, p);
    assert(forall|j: int| 0 <= j < m.pending.len() ==> #[trigger] ps2[j].id == m.pending[j].id);
    assert(forall|j: int|
        0 <= j < m.pending.len() ==> #[trigger] ps2[j].sender == m.pending[j].sender);
    assert(forall|j: int|
        0 <= j < m.pending.len() ==> #[trigger] ps2[j].receiver == m.pending[j].receiver);
}

/// Registering a wallet under a fresh key preserves well-formedness.
pub proof fn lemma_wf_push_wallet(m: LedgerModel, w: Wallet)
    requires
        wf(m),
        !has_wallet(m.wallets, w.verification_key),
    ensures
        wf(LedgerModel { wallets: m.wallets.push(w), pending: m.pending }),
{
    let ws2 = m.wallets.push(w);
    assert(forall|j: int|
        0 <= j < m.wallets.len() ==> #[trigger] ws2[j].verification_key
            == m.wallets[j].verification_key);
    assert forall|k: int|
        0 <= k < m.pending.len() implies has_wallet(ws2, #[trigger] m.pending[k].sender) by {
        let j = choose|j: int|
            0 <= j < m.wallets.len() && m.wallets[j].verification_key == m.pending[k].sender;
        assert(ws2[j].verification_key == m.pending[k].sender);
    }
    assert forall|k: int|
        0 <= k < m.pending.len() implies has_wallet(ws2, #[trigger] m.pending[k].receiver) by {
        let j = choose|j: int|
            0 <= j < m.wallets.len() && m.wallets[j].verification_key == m.pending[k].receiver;
        assert(ws2[j].verification_key == m.pending[k].receiver);
    }
}

/// Recording a pending transfer with a fresh id between registered wallets
/// preserves well-formedness.
pub proof fn lemma_wf_push_pending(m: LedgerModel, p: PendingTransfer)
    requires
        wf(m),
        !has_transfer(m.pending, p.id),
        has_wallet(m.wallets, p.sender),
        has_wallet(m.wallets, p.receiver),
    ensures
        wf(LedgerModel { wallets: m.wallets, pending: m.pending.push(p) }),
{
    let ps2 = m.pending.push(p);
    assert(forall|j: int| 0 <= j < m.pending.len() ==> #[trigger] ps2[j] == m.pending[j]);
    assert(ps2[m.pending.len() as int] == p);
}

/// Accepting the pending record at index `i` preserves well-formedness,
/// record counts, wallet keys, every other pending record, and the
/// conserved total; the record itself becomes `Accepted`.
pub proof fn lemma_accept_at_preserves(m: LedgerModel, i: int)
    requires
        wf(m),
        0 <= i < m.pending.len(),
        m.pending[i].status is Pending,
    ensures
        wf(apply_accept_at(m, i)),
        apply_accept_at(m, i).pending.len() == m.pending.len(),
        apply_accept_at(m, i).wallets.len() == m.wallets.len(),
        forall|j: int|
            0 <= j < m.pending.len() && j != i ==> apply_accept_at(m, i).pending[j]
                == m.pending[j],
        forall|j: int|
            0 <= j < m.wallets.len() ==> apply_accept_at(m, i).wallets[j].verification_key
                == m.wallets[j].verification_key,
        apply_accept_at(m, i).pending[i] == with_status(m.pending[i], TransferStatus::Accepted),
        committed_total(apply_accept_at(m, i)) == committed_total(m),
{
    let p = m.pending[i];
    let ri = wallet_index(m.wallets, p.receiver);
    assert(0 <= ri < m.wallets.len() && m.wallets[ri].verification_key == p.receiver);
    let w2 = credited(m.wallets[ri], p.amount_commitment);
    lemma_wf_update_wallet(m, ri, w2);
    lemma_wf_update_pending(
        LedgerModel { wallets: m.wallets.update(ri, w2), pending: m.pending },
        i,
        with_status(p, TransferStatus::Accepted),
    );
    assert(apply_accept_at(m, i) == LedgerModel {
        wallets: m.wallets.update(ri, w2),
        pending: m.pending.update(i, with_status(p, TransferStatus::Accepted)),
    });
    lemma_wallet_sum_update(m.wallets, ri, w2);
    lemma_escrow_sum_update(m.pending, i, with_status(p, TransferStatus::Accepted));
    let s = wallet_sum(m.wallets) + escrow_sum(m.pending);
    let bal = m.wallets[ri].balance_commitment.value;
    let a = p.amount_commitment.value;
    let d = crate::crypto::gadd(bal, a) - bal - a;
    assert(wallet_sum(apply_accept_at(m, i).wallets) + escrow_sum(apply_accept_at(m, i).pending)
        == s + d);
    lemma_total_shift(s, d);
}

/// Reversing one record preserves well-formedness, record counts, wallet
/// keys, every other pending record, and the conserved total; an eligible
/// record is marked rolled back and an ineligible one leaves the ledger
/// unchanged.
pub proof fn lemma_roll_back_at_preserves(m: LedgerModel, i: int, height: u64)
    requires
        wf(m),
    ensures
        wf(roll_back_at(m, i, height)),
        roll_back_at(m, i, height).pending.len() == m.pending.len(),
        roll_back_at(m, i, height).wallets.len() == m.wallets.len(),
        forall|j: int|
            0 <= j < m.pending.len() && j != i ==> roll_back_at(m, i, height).pending[j]
                == m.pending[j],
        forall|j: int|
            0 <= j < m.wallets.len() ==> roll_back_at(m, i, height).wallets[j].verification_key
                == m.wallets[j].verification_key,
        0 <= i < m.pending.len() && expired(m.pending[i], height) ==> roll_back_at(
            m,
            i,
            height,
        ).pending[i] == with_status(m.pending[i], TransferStatus::RolledBack),
        0 <= i < m.pending.len() && !expired(m.pending[i], height) ==> roll_back_at(m, i, height)
            == m,
        committed_total(roll_back_at(m, i, height)) == committed_total(m),
{
    let mm = roll_back_at(m, i, height);
    if 0 <= i < m.pending.len() && expired(m.pending[i], height) && has_wallet(
        m.wallets,
        m.pending[i].sender,
    ) {
        let p = m.pending[i];
        let si = wallet_index(m.wallets, p.sender);
        assert(0 <= si < m.wallets.len() && m.wallets[si].verification_key == p.sender);
        assert(forall|j: int|
            0 <= j < m.wallets.len() ==> #[trigger] mm.wallets[j].verification_key
                == m.wallets[j].verification_key);
        assert(forall|j: int|
            0 <= j < m.pending.len() ==> #[trigger] mm.pending[j].id == m.pending[j].id);
        assert forall|k: int|
            0 <= k < m.pending.len() implies has_wallet(
            mm.wallets,
            #[trigger] mm.pending[k].sender,
        ) by {
            let js = choose|j: int|
                0 <= j < m.wallets.len() && m.wallets[j].verification_key
                    == m.pending[k].sender;
            assert(mm.wallets[js].verification_key == m.pending[k].sender);
            assert(mm.pending[k].sender == m.pending[k].sender);
        }
        assert forall|k: int|
            0 <= k < m.pending.len() implies has_wallet(
            mm.wallets,
            #[trigger] mm.pending[k].receiver,
        ) by {
            let jr = choose|j: int|
                0 <= j < m.wallets.len() && m.wallets[j].verification_key
                    == m.pending[k].receiver;
            assert(mm.wallets[jr].verification_key == m.pending[k].receiver);
            assert(mm.pending[k].receiver == m.pending[k].receiver);
        }
        lemma_wallet_sum_update(m.wallets, si, credited(m.wallets[si], p.amount_commitment));
        lemma_escrow_sum_update(m.pending, i, with_status(p, TransferStatus::RolledBack));
        let s = wallet_sum(m.wallets) + escrow_sum(m.pending);
        let bal = m.wallets[si].balance_commitment.value;
        let a = p.amount_commitment.value;
        let d = crate::crypto::gadd(bal, a) - bal - a;
        assert(wallet_sum(mm.wallets) + escrow_sum(mm.pending) == s + d);
        lemma_total_shift(s, d);
    }
}

/// The sweep over the first `n` records preserves well-formedness, record
/// counts, wallet keys and the conserved total; it leaves records at or
/// beyond `n` untouched, marks each eligible earlier record rolled back and
/// leaves each ineligible earlier record as it was.
pub proof fn lemma_sweep_preserves(m: LedgerModel, height: u64, n: int)
    requires
        wf(m),
        0 <= n <= m.pending.len(),
    ensures
        wf(sweep(m, height, n)),
        sweep(m, height, n).pending.len() == m.pending.len(),
        sweep(m, height, n).wallets.len() == m.wallets.len(),
        forall|j: int|
            0 <= j < m.wallets.len() ==> sweep(m, height, n).wallets[j].verification_key
                == m.wallets[j].verification_key,
        forall|j: int| n <= j < m.pending.len() ==> sweep(m, height, n).pending[j] == m.pending[j],
        forall|j: int|
            0 <= j < n ==> sweep(m, height, n).pending[j] == (if expired(m.pending[j], height) {
                with_status(m.pending[j], TransferStatus::RolledBack)
            } else {
                m.pending[j]
            }),
        committed_total(sweep(m, height, n)) == committed_total(m),
    decreases n,
{
    if n > 0 {
        let mp = sweep(m, height, n - 1);
        lemma_sweep_preserves(m, height, n - 1);
        assert(mp.pending[n - 1] == m.pending[n - 1]);
        lemma_roll_back_at_preserves(mp, n - 1, height);
    }
}

/// A sweep over records none of which is eligible leaves the ledger
/// unchanged.
pub proof fn lemma_sweep_no_op(m: LedgerModel, height: u64, n: int)
    requires
        wf(m),
        0 <= n <= m.pending.len(),
        forall|j: int| 0 <= j < m.pending.len() ==> !expired(#[trigger] m.pending[j], height),
    ensures
        sweep(m, height, n) == m,
    decreases n,
{
    if n > 0 {
        lemma_sweep_no_op(m, height, n - 1);
        lemma_roll_back_at_preserves(m, n - 1, height);
    }
}

/// Under unique wallet keys, any index holding `key` is the chosen one.
pub proof fn lemma_wallet_index_agrees(ws: Seq<Wallet>, key: PublicKey, i: int)
    requires
        forall|a: int, b: int|
            0 <= a < ws.len() && 0 <= b < ws.len() && a != b
                ==> ws[a].verification_key != ws[b].verification_key,
        0 <= i < ws.len(),
        ws[i].verification_key == key,
    ensures
        has_wallet(ws, key),
        wallet_index(ws, key) == i,
{
    assert(has_wallet(ws, key));
    let j = wallet_index(ws, key);
    assert(0 <= j < ws.len() && ws[j].verification_key == key);
}

/// Under unique transfer ids, any index holding `id` is the chosen one.
pub proof fn lemma_transfer_index_agrees(ps: Seq<PendingTransfer>, id: TransferId, i: int)
    requires
        forall|a: int, b: int|
            0 <= a < ps.len() && 0 <= b < ps.len() && a != b ==> ps[a].id != ps[b].id,
        0 <= i < ps.len(),
        ps[i].id == id,
    ensures
        has_transfer(ps, id),
        transfer_index(ps, id) == i,
{
    assert(has_transfer(ps, id));
    let j = transfer_index(ps, id);
    assert(0 <= j < ps.len() && ps[j].id == id);
}

} // verus!
