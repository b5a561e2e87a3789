//! Signer side of a three-round Schnorr multi-signature over the Ristretto group.
//!
//! Each party runs a linear state machine: it commits to a fresh nonce, reveals
//! it once every peer has committed, computes its partial signature (siglet),
//! and finally combines all siglets into one aggregated signature, optionally
//! checking each siglet against its signer's public key first.
//!
//! Group arithmetic is modelled through discrete logarithms: every point is
//! `k·B` for exactly one `k < ℓ`, so every contract reduces to arithmetic
//! modulo the group order `ℓ`.

pub mod group;
pub mod laws;
pub mod prover;
pub mod signer;
