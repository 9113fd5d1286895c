use private_currency::config::{RollbackDelayBounds, ServiceConfig};
use private_currency::crypto::{
    derive_encryption_key, Commitment, EncryptedData, PublicKey, Signature, SimpleRangeProof,
    TransferId,
};
use private_currency::ledger::{Ledger, PendingTransfer, TransferStatus, Wallet};
use private_currency::transactions::{Accept, CreateWallet, Error, Transfer, TxContext};

fn config() -> ServiceConfig {
    ServiceConfig {
        min_transfer_amount: 10,
        rollback_delay_bounds: RollbackDelayBounds { start: 5, end: 20 },
    }
}

fn key(id: u64) -> PublicKey {
    PublicKey { id }
}

fn wallet(id: u64, balance: u64, blinding: u64) -> Wallet {
    Wallet {
        verification_key: key(id),
        encryption_key: derive_encryption_key(&key(id)),
        balance_commitment: Commitment { value: balance, blinding },
    }
}

/// A transfer with honestly constructed proofs, as its author would build
/// them knowing the opening of their own balance commitment.
fn transfer(
    from: &Wallet,
    to: PublicKey,
    delay: u32,
    amount: Commitment,
    cfg: &ServiceConfig,
) -> Transfer {
    let floor = Commitment::with_no_blinding(cfg.min_transfer_amount);
    Transfer {
        from: from.verification_key,
        to,
        rollback_delay: delay,
        amount,
        amount_proof: SimpleRangeProof { target: amount.sub(&floor) },
        sufficient_balance_proof: SimpleRangeProof {
            target: from.balance_commitment.sub(&amount),
        },
        encrypted_data: EncryptedData { payload: 99 },
        signature: Signature { author: from.verification_key },
    }
}

fn accept(receiver: PublicKey, transfer_id: TransferId) -> Accept {
    Accept { receiver, transfer_id, signature: Signature { author: receiver } }
}

/// Sum of committed balances plus pending escrows, wrapping as the
/// commitment group does.
fn conserved_total(ledger: &Ledger) -> u64 {
    let mut total: u64 = 0;
    for w in &ledger.wallets {
        total = total.wrapping_add(w.balance_commitment.value);
    }
    for p in &ledger.pending {
        if matches!(p.status, TransferStatus::Pending) {
            total = total.wrapping_add(p.amount_commitment.value);
        }
    }
    total
}

#[test]
fn create_wallet_registers_key_once() {
    let mut ledger = Ledger::new();
    let tx = CreateWallet { key: key(1), signature: Signature { author: key(1) } };
    assert!(tx.verify());
    assert_eq!(tx.execute(&mut ledger), Ok(()));
    assert_eq!(ledger.wallets.len(), 1);
    assert_eq!(ledger.wallets[0].balance_commitment, Commitment { value: 0, blinding: 0 });
    assert_eq!(ledger.wallets[0].encryption_key, derive_encryption_key(&key(1)));
    assert_eq!(tx.execute(&mut ledger), Err(Error::WalletExists));
    assert_eq!(ledger.wallets.len(), 1);
}

#[test]
fn create_wallet_rejects_wrong_signer() {
    let tx = CreateWallet { key: key(1), signature: Signature { author: key(2) } };
    assert!(!tx.verify());
}

#[test]
fn delay_bounds_half_open() {
    let cfg = config();
    let a = wallet(1, 100, 3);
    let amount = Commitment { value: 25, blinding: 8 };
    // inclusive lower bound: delay == start is accepted
    let at_start = transfer(&a, key(2), 5, amount, &cfg);
    assert!(at_start.verify(&cfg));
    // exclusive upper bound: delay == end is rejected
    let at_end = transfer(&a, key(2), 20, amount, &cfg);
    assert!(!at_end.verify(&cfg));
    let below = transfer(&a, key(2), 4, amount, &cfg);
    assert!(!below.verify(&cfg));
}

#[test]
fn self_transfer_rejected_despite_valid_proofs() {
    let cfg = config();
    let a = wallet(1, 100, 3);
    let tx = transfer(&a, key(1), 10, Commitment { value: 25, blinding: 8 }, &cfg);
    assert!(tx.amount_proof.verify(&tx.amount.sub(&Commitment::with_no_blinding(10))));
    assert!(!tx.verify(&cfg));
}

#[test]
fn amount_below_floor_rejected_statelessly() {
    let cfg = config();
    let a = wallet(1, 100, 3);
    // amount 9 is below the floor of 10: the committed residue of
    // amount - floor wraps far out of range
    let tx = transfer(&a, key(2), 10, Commitment { value: 9, blinding: 8 }, &cfg);
    assert!(!tx.verify_stateless(&cfg));
    assert!(!tx.verify(&cfg));
    // amount exactly at the floor is fine
    let tx = transfer(&a, key(2), 10, Commitment { value: 10, blinding: 8 }, &cfg);
    assert!(tx.verify_stateless(&cfg));
    assert!(tx.verify(&cfg));
}

#[test]
fn transfer_requires_registered_endpoints() {
    let cfg = config();
    let a = wallet(1, 100, 3);
    let b = wallet(2, 0, 0);
    let ctx = TxContext { height: 100, tx_hash: TransferId { id: 77 } };
    let tx = transfer(&a, key(2), 10, Commitment { value: 25, blinding: 8 }, &cfg);

    let mut empty = Ledger::new();
    assert_eq!(tx.execute(&mut empty, &ctx), Err(Error::UnregisteredSender));

    let mut only_sender = Ledger { wallets: vec![a], pending: vec![] };
    assert_eq!(tx.execute(&mut only_sender, &ctx), Err(Error::UnregisteredReceiver));
    assert_eq!(only_sender.wallets[0].balance_commitment, a.balance_commitment);

    let mut both = Ledger { wallets: vec![a, b], pending: vec![] };
    assert_eq!(tx.execute(&mut both, &ctx), Ok(()));
}

#[test]
fn stale_sufficiency_proof_fails_at_execution() {
    let cfg = config();
    let a = wallet(1, 100, 3);
    let b = wallet(2, 0, 0);
    // proofs authored against a balance the sender no longer has
    let stale = wallet(1, 200, 3);
    let tx = transfer(&stale, key(2), 10, Commitment { value: 25, blinding: 8 }, &cfg);
    assert!(tx.verify(&cfg));
    let mut ledger = Ledger { wallets: vec![a, b], pending: vec![] };
    let ctx = TxContext { height: 100, tx_hash: TransferId { id: 77 } };
    assert_eq!(tx.execute(&mut ledger, &ctx), Err(Error::IncorrectProof));
    assert_eq!(ledger.wallets[0].balance_commitment, a.balance_commitment);
    assert!(ledger.pending.is_empty());
}

#[test]
fn overdraft_fails_at_execution() {
    let cfg = config();
    let a = wallet(1, 100, 3);
    let b = wallet(2, 0, 0);
    let mut ledger = Ledger { wallets: vec![a, b], pending: vec![] };
    let ctx = TxContext { height: 100, tx_hash: TransferId { id: 77 } };
    // an honest proof for an amount above the balance cannot verify: the
    // remaining-balance commitment wraps out of range
    let tx = transfer(&a, key(2), 10, Commitment { value: 101, blinding: 8 }, &cfg);
    assert_eq!(tx.execute(&mut ledger, &ctx), Err(Error::IncorrectProof));
}

#[test]
fn transfer_then_accept_scenario() {
    let cfg = config();
    let a = wallet(1, 100, 3);
    let b = wallet(2, 40, 5);
    let mut ledger = Ledger { wallets: vec![a, b], pending: vec![] };
    let before = conserved_total(&ledger);

    let amount = Commitment { value: 25, blinding: 8 };
    let tx = transfer(&a, key(2), 10, amount, &cfg);
    assert!(tx.verify(&cfg));
    let id = TransferId { id: 77 };
    let ctx = TxContext { height: 100, tx_hash: id };
    assert_eq!(tx.execute(&mut ledger, &ctx), Ok(()));

    // the sender is debited immediately: the escrow is held by the pending
    // record, not by the receiver
    assert_eq!(ledger.wallets[0].balance_commitment, a.balance_commitment.sub(&amount));
    assert_eq!(ledger.wallets[1].balance_commitment, b.balance_commitment);
    assert_eq!(ledger.pending.len(), 1);
    let entry = &ledger.pending[0];
    assert_eq!(entry.id, id);
    assert_eq!(entry.sender, key(1));
    assert_eq!(entry.receiver, key(2));
    assert_eq!(entry.created_at_height, 100);
    assert_eq!(entry.expires_at_height, 110);
    assert!(matches!(entry.status, TransferStatus::Pending));
    assert_eq!(conserved_total(&ledger), before);

    // the receiver accepts before height 110
    let acc = accept(key(2), id);
    assert!(acc.verify());
    assert_eq!(acc.execute(&mut ledger), Ok(()));
    assert_eq!(ledger.wallets[1].balance_commitment, b.balance_commitment.add(&amount));
    assert!(matches!(ledger.pending[0].status, TransferStatus::Accepted));
    assert_eq!(conserved_total(&ledger), before);

    // a second acceptance of the same transfer fails like one of a
    // nonexistent transfer
    assert_eq!(acc.execute(&mut ledger), Err(Error::UnknownTransfer));
    assert_eq!(ledger.wallets[1].balance_commitment, b.balance_commitment.add(&amount));
}

#[test]
fn unaccepted_transfer_rolls_back_scenario() {
    let cfg = config();
    let a = wallet(1, 100, 3);
    let b = wallet(2, 40, 5);
    let mut ledger = Ledger { wallets: vec![a, b], pending: vec![] };
    let before = conserved_total(&ledger);

    let amount = Commitment { value: 25, blinding: 8 };
    let tx = transfer(&a, key(2), 10, amount, &cfg);
    let id = TransferId { id: 77 };
    let ctx = TxContext { height: 100, tx_hash: id };
    assert_eq!(tx.execute(&mut ledger, &ctx), Ok(()));
    assert_eq!(ledger.wallets[0].balance_commitment, a.balance_commitment.sub(&amount));

    // the deadline has not elapsed yet: the sweep changes nothing
    ledger.process_expiry(109);
    assert!(matches!(ledger.pending[0].status, TransferStatus::Pending));
    assert_eq!(ledger.wallets[0].balance_commitment, a.balance_commitment.sub(&amount));

    // at height 110 the transfer reverses: the sender's balance is restored
    ledger.process_expiry(110);
    assert!(matches!(ledger.pending[0].status, TransferStatus::RolledBack));
    assert_eq!(ledger.wallets[0].balance_commitment, a.balance_commitment);
    assert_eq!(ledger.wallets[1].balance_commitment, b.balance_commitment);
    assert_eq!(conserved_total(&ledger), before);

    // the reversal happens exactly once, however many blocks elapse
    ledger.process_expiry(110);
    ledger.process_expiry(500);
    assert!(matches!(ledger.pending[0].status, TransferStatus::RolledBack));
    assert_eq!(ledger.wallets[0].balance_commitment, a.balance_commitment);

    // a late acceptance fails like one of a nonexistent transfer
    let acc = accept(key(2), id);
    assert_eq!(acc.execute(&mut ledger), Err(Error::UnknownTransfer));
}

#[test]
fn accept_by_wrong_receiver_rejected() {
    let cfg = config();
    let a = wallet(1, 100, 3);
    let b = wallet(2, 40, 5);
    let c = wallet(3, 0, 0);
    let mut ledger = Ledger { wallets: vec![a, b, c], pending: vec![] };
    let tx = transfer(&a, key(2), 10, Commitment { value: 25, blinding: 8 }, &cfg);
    let id = TransferId { id: 77 };
    assert_eq!(tx.execute(&mut ledger, &TxContext { height: 100, tx_hash: id }), Ok(()));

    // wallet C claims B's incoming transfer
    let acc = accept(key(3), id);
    assert_eq!(acc.execute(&mut ledger), Err(Error::UnauthorizedAccept));
    assert!(matches!(ledger.pending[0].status, TransferStatus::Pending));
    assert_eq!(ledger.wallets[2].balance_commitment, c.balance_commitment);

    // an unknown id fails before the receiver check
    let acc = accept(key(3), TransferId { id: 1234 });
    assert_eq!(acc.execute(&mut ledger), Err(Error::UnknownTransfer));
}

#[test]
fn accept_rejects_wrong_signer() {
    let acc = Accept {
        receiver: key(2),
        transfer_id: TransferId { id: 77 },
        signature: Signature { author: key(3) },
    };
    assert!(!acc.verify());
}

#[test]
fn expiry_sweeps_only_elapsed_pending_entries() {
    let a = wallet(1, 100, 3);
    let b = wallet(2, 40, 5);
    let amount = Commitment { value: 10, blinding: 1 };
    let entry = |id: u64, expires: u64, status: TransferStatus| PendingTransfer {
        id: TransferId { id },
        sender: key(1),
        receiver: key(2),
        amount_commitment: amount,
        encrypted_opening: EncryptedData { payload: 0 },
        created_at_height: 1,
        expires_at_height: expires,
        status,
    };
    let mut ledger = Ledger {
        wallets: vec![a, b],
        pending: vec![
            entry(1, 50, TransferStatus::Pending),
            entry(2, 60, TransferStatus::Pending),
            entry(3, 50, TransferStatus::Accepted),
        ],
    };
    ledger.process_expiry(55);
    assert!(matches!(ledger.pending[0].status, TransferStatus::RolledBack));
    assert!(matches!(ledger.pending[1].status, TransferStatus::Pending));
    assert!(matches!(ledger.pending[2].status, TransferStatus::Accepted));
    // only the one elapsed pending escrow was credited back
    assert_eq!(ledger.wallets[0].balance_commitment, a.balance_commitment.add(&amount));
}

#[test]
fn expiry_credits_each_escrow_of_one_sender() {
    let a = wallet(1, 100, 3);
    let b = wallet(2, 40, 5);
    let entry = |id: u64, value: u64| PendingTransfer {
        id: TransferId { id },
        sender: key(1),
        receiver: key(2),
        amount_commitment: Commitment { value, blinding: 0 },
        encrypted_opening: EncryptedData { payload: 0 },
        created_at_height: 1,
        expires_at_height: 30,
        status: TransferStatus::Pending,
    };
    let mut ledger = Ledger { wallets: vec![a, b], pending: vec![entry(1, 7), entry(2, 11)] };
    let before = conserved_total(&ledger);
    ledger.process_expiry(30);
    assert!(matches!(ledger.pending[0].status, TransferStatus::RolledBack));
    assert!(matches!(ledger.pending[1].status, TransferStatus::RolledBack));
    assert_eq!(ledger.wallets[0].balance_commitment, Commitment { value: 118, blinding: 3 });
    assert_eq!(conserved_total(&ledger), before);
}

#[test]
fn store_lookups_report_current_state() {
    let cfg = config();
    let a = wallet(1, 100, 3);
    let b = wallet(2, 40, 5);
    let mut ledger = Ledger { wallets: vec![a, b], pending: vec![] };

    assert_eq!(ledger.wallet(&key(1)).unwrap().balance, a.balance_commitment);
    assert!(ledger.wallet(&key(9)).is_none());

    let id = TransferId { id: 77 };
    assert!(ledger.maybe_transfer(&id).is_none());
    let tx = transfer(&a, key(2), 10, Commitment { value: 25, blinding: 8 }, &cfg);
    assert_eq!(tx.execute(&mut ledger, &TxContext { height: 100, tx_hash: id }), Ok(()));
    let seen = ledger.maybe_transfer(&id).unwrap();
    assert_eq!(seen.id, id);
    assert!(matches!(seen.status, TransferStatus::Pending));
    // the info a later sufficiency check would consult reflects the debit
    assert_eq!(
        ledger.wallet(&key(1)).unwrap().balance,
        a.balance_commitment.sub(&Commitment { value: 25, blinding: 8 })
    );

    // once the record is terminal it is reported like a missing one
    assert_eq!(accept(key(2), id).execute(&mut ledger), Ok(()));
    assert!(ledger.maybe_transfer(&id).is_none());
}

#[test]
fn error_codes_are_stable() {
    assert_eq!(Error::WalletExists.code(), 0);
    assert_eq!(Error::UnregisteredSender.code(), 1);
    assert_eq!(Error::UnregisteredReceiver.code(), 2);
    assert_eq!(Error::IncorrectProof.code(), 3);
    assert_eq!(Error::UnknownTransfer.code(), 4);
    // 5 and 6 are reserved for retired variants
    assert_eq!(Error::UnauthorizedAccept.code(), 7);
}
