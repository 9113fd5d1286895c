//! Idealized models of the cryptographic collaborators.
//!
//! The transaction protocol never inspects the internals of a commitment, a
//! proof or a signature; it only uses their algebra.  Each primitive is
//! therefore modelled as an immutable value type whose visible behaviour is
//! exactly the interface the protocol relies on:
//!
//! * a [`Commitment`] is an element of an additive group (componentwise
//!   arithmetic modulo 2^64 on a committed value and a blinding component),
//!   so subtraction is total and homomorphic;
//! * a [`SimpleRangeProof`] certifies one specific commitment and verifies
//!   iff that commitment's committed residue lies in the non-negative range;
//! * a [`Signature`] is valid under exactly the key of the party that
//!   produced it (the standard symbolic signature model);
//! * [`EncryptedData`] is an opaque payload the ledger stores for the
//!   receiver without reading it.

use vstd::prelude::*;

verus! {

/// The order of the commitment group: components wrap modulo 2^64.
pub open spec fn group_order() -> int {
    0x1_0000_0000_0000_0000
}

/// Addition in the commitment group, on one component.
pub open spec fn gadd(a: u64, b: u64) -> u64 {
    if a + b > u64::MAX {
        (a + b - group_order()) as u64
    } else {
        (a + b) as u64
    }
}

/// Subtraction in the commitment group, on one component.
pub open spec fn gsub(a: u64, b: u64) -> u64 {
    if a - b < 0 {
        (a - b + group_order()) as u64
    } else {
        (a - b) as u64
    }
}

/// Ed25519-style verification key; the unique identifier of a wallet.
#[derive(Clone, Copy, Debug, PartialEq, Eq, Structural)]
pub struct PublicKey {
    pub id: u64,
}

/// Public encryption key, deterministically derived from a verification key.
#[derive(Clone, Copy, Debug, PartialEq, Eq, Structural)]
pub struct EncryptionKey {
    pub id: u64,
}

/// Content hash of a transfer transaction; the unique identifier of a
/// pending transfer.
#[derive(Clone, Copy, Debug, PartialEq, Eq, Structural)]
pub struct TransferId {
    pub id: u64,
}

/// Symbolic digital signature: it records which key's owner produced it, and
/// it validates under exactly that key.
#[derive(Clone, Copy, Debug, PartialEq, Eq, Structural)]
pub struct Signature {
    pub author: PublicKey,
}

impl Signature {
    /// Signature check: valid under `key` iff the signer's key is `key`.
    pub fn is_valid_under(&self, key: &PublicKey) -> (r: bool)
        ensures
            r == (self.author == *key),
    {
        self.author.id == key.id
    }
}

/// Opaque encryption of a transfer's opening material (amount and blinding),
/// decryptable only by the receiver.  The core stores it without reading it.
#[derive(Clone, Copy, Debug, PartialEq, Eq, Structural)]
pub struct EncryptedData {
    pub payload: u64,
}

/// Additive homomorphic commitment to a hidden amount.
///
/// Modelled as the pair of its committed value and its blinding factor, both
/// reduced modulo the group order; two commitments are equal iff both
/// components are.  The protocol only ever constructs zero-blinding
/// commitments, subtracts commitments and compares them, so these are the
/// only operations exposed.
#[derive(Clone, Copy, Debug, PartialEq, Eq, Structural)]
pub struct Commitment {
    pub value: u64,
    pub blinding: u64,
}

/// Commitment subtraction, componentwise in the group.
pub open spec fn csub(a: Commitment, b: Commitment) -> Commitment {
    Commitment { value: gsub(a.value, b.value), blinding: gsub(a.blinding, b.blinding) }
}

/// Commitment addition, componentwise in the group.
pub open spec fn cadd(a: Commitment, b: Commitment) -> Commitment {
    Commitment { value: gadd(a.value, b.value), blinding: gadd(a.blinding, b.blinding) }
}

impl Commitment {
    /// Deterministic commitment to `amount` with zero blinding, used to
    /// publish plaintext configuration values (the minimum transfer amount)
    /// in commitment form.
    pub fn with_no_blinding(amount: u64) -> (c: Commitment)
        ensures
            c == (Commitment { value: amount, blinding: 0u64 }),
    {
        Commitment { value: amount, blinding: 0 }
    }

    /// Homomorphic subtraction: commits to the difference of the hidden
    /// amounts (and of the blindings), in the group.
    pub fn sub(&self, other: &Commitment) -> (c: Commitment)
        ensures
            c == csub(*self, *other),
    {
        Commitment {
            value: self.value.wrapping_sub(other.value),
            blinding: self.blinding.wrapping_sub(other.blinding),
        }
    }

    /// Homomorphic addition: commits to the sum of the hidden amounts (and
    /// of the blindings), in the group.
    pub fn add(&self, other: &Commitment) -> (c: Commitment)
        ensures
            c == cadd(*self, *other),
    {
        Commitment {
            value: self.value.wrapping_add(other.value),
            blinding: self.blinding.wrapping_add(other.blinding),
        }
    }
}

/// The residues a range proof accepts as "non-negative": committed values
/// below 2^63.  A residue at or above this bound can only arise from a
/// subtraction that underflowed, i.e. from a hidden amount that would be
/// negative as an integer.
pub open spec fn in_range(v: u64) -> bool {
    v < 0x8000_0000_0000_0000
}

/// Idealized zero-knowledge range proof.
///
/// A proof is bound to the one commitment it was produced for; verification
/// succeeds iff the proof matches the commitment it is checked against and
/// that commitment's committed residue is in the non-negative range.  This
/// models both soundness (a verifying proof really does certify a
/// non-negative value) and the binding of a proof to its statement.
#[derive(Clone, Copy, Debug, PartialEq, Eq, Structural)]
pub struct SimpleRangeProof {
    pub target: Commitment,
}

impl SimpleRangeProof {
    /// Check the proof against `commitment`.
    pub fn verify(&self, commitment: &Commitment) -> (r: bool)
        ensures
            r == (self.target == *commitment && in_range(commitment.value)),
    {
        self.target.value == commitment.value && self.target.blinding == commitment.blinding
            && commitment.value < 0x8000_0000_0000_0000
    }
}

/// Deterministic derivation of a wallet's public encryption key from its
/// verification key.
pub fn derive_encryption_key(key: &PublicKey) -> (r: EncryptionKey)
    ensures
        r == derived_key(*key),
{
    EncryptionKey { id: key.id }
}

/// The encryption key derived from a verification key.
pub open spec fn derived_key(key: PublicKey) -> EncryptionKey {
    EncryptionKey { id: key.id }
}

} // verus!
