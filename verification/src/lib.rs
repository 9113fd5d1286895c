//! Confidential value transfer on a shared ledger.
//!
//! Account balances and transfer amounts are hidden behind additive
//! homomorphic commitments.  Transfers are two-phase: a sender proposes a
//! transfer, which immediately escrows the committed amount, and the receiver
//! must explicitly accept it within a bounded block-height window, or the
//! transfer automatically reverses.
//!
//! The crate verifies the transaction protocol itself: the admission rules
//! (`verify`) and the state transitions (`execute`) for wallet creation,
//! transfer proposal and transfer acceptance, together with the expiry sweep
//! that rolls unaccepted transfers back.  The cryptographic collaborators
//! (commitment algebra, range proofs, signatures, payload encryption) are
//! modelled as idealized value types whose algebra is stated explicitly.

pub mod config;
pub mod crypto;
pub mod laws;
pub mod ledger;
pub mod transactions;
