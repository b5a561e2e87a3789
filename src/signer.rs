//! Keys, signatures, errors and the domain-separated hashes of the protocol.

use crate::prover::NonceCommitment;
use crate::group::{hash_to_scalar, hash_to_scalar_of, le_value, Point, Scalar, ell};
use vstd::prelude::*;

verus! {

/// First byte of every input to the nonce-commitment hash.
pub const NONCE_DOMAIN: u8 = 0x4e;

/// First byte of every input to the challenge hash.
pub const SIG_DOMAIN: u8 = 0x53;

/// First byte of every input to the aggregation-coefficient hash.
pub const AGG_DOMAIN: u8 = 0x41;

/// A party's long-term secret key share.
#[derive(Clone, Copy, Debug)]
pub struct PrivKey(pub Scalar);

/// A public key, the point `x·B` for a private key `x`.
#[derive(Clone, Copy, Debug)]
pub struct PubKey(pub Point);

/// A digest binding the ordered set of participating public keys.
#[derive(Clone, Copy, Debug)]
pub struct PubKeyHash(pub [u8; 32]);

/// The aggregated signature: the sum `s` of the siglets and the sum `R` of
/// the nonce commitments.
#[derive(Clone, Copy, Debug)]
#[allow(non_snake_case)]
pub struct Signature {
    pub s: Scalar,
    pub R: NonceCommitment,
}

/// Why a transition of the protocol was refused.
#[derive(Clone, Copy, Debug, PartialEq, Eq, Structural)]
pub enum SignerError {
    /// The commitment of this participant does not match its precommitment.
    BindingViolation { index: usize },
    /// The siglet of this participant fails its verification equation.
    SigletInvalid { index: usize },
    /// The vectors of one round are empty or not of one length per participant.
    MalformedInput,
}

/// `H_nonce(R)`: the precommitment to the nonce commitment encoded by `R`.
pub open spec fn nonce_digest(R: Seq<u8>) -> Seq<u8> {
    hash_to_scalar_of(seq![NONCE_DOMAIN] + R)
}

/// `H_sig(X_agg, R, m)`: the challenge for key `X_agg`, aggregate nonce `R`
/// and message `m`.
pub open spec fn challenge(X_agg: Seq<u8>, R: Seq<u8>, m: Seq<u8>) -> nat {
    le_value(hash_to_scalar_of(seq![SIG_DOMAIN] + X_agg + R + m)) % ell()
}

/// `H_agg(L, X)`: the aggregation coefficient of key `X` in the signer set `L`.
pub open spec fn agg_coefficient(L: Seq<u8>, X: Seq<u8>) -> nat {
    le_value(hash_to_scalar_of(seq![AGG_DOMAIN] + L + X)) % ell()
}

/// The siglet `r + c·a·x` of a party with nonce `r` and key `x`.
pub open spec fn siglet_value(r: nat, c: nat, a: nat, x: nat) -> nat {
    (r + c * a * x) % ell()
}

/// `s·B == R + c·a·X`, for the logarithms `R` and `X` of the points.
pub open spec fn verification_holds(s: nat, R: nat, c: nat, a: nat, X: nat) -> bool {
    s % ell() == (R + c * a * X) % ell()
}

fn append_bytes(v: &mut Vec<u8>, s: &[u8])
    ensures
        final(v)@ == old(v)@ + s@,
{
    let ghost start = v@;
    let mut i: usize = 0;
    while i < s.len()
        invariant
            i <= s@.len(),
            v@ == start + s@.subrange(0, i as int),
        decreases s.len() - i,
    {
        v.push(s[i]);
        i += 1;
        assert(v@ =~= start + s@.subrange(0, i as int));
    }
    assert(s@.subrange(0, s@.len() as int) =~= s@);
}

/// `H_nonce`: hashes a nonce commitment into its precommitment.
pub fn h_nonce(R: &Point) -> (r: Scalar)
    ensures
        r.encoding() == nonce_digest(R.encoding()),
{
    let mut input: Vec<u8> = Vec::new();
    input.push(NONCE_DOMAIN);
    let bytes = R.to_bytes();
    append_bytes(&mut input, bytes.as_slice());
    assert(input@ =~= seq![NONCE_DOMAIN] + R.encoding());
    hash_to_scalar(&input)
}

/// `H_sig`: the challenge for an aggregated key, an aggregated nonce and a message.
pub fn h_sig(X_agg: &PubKey, R: &Point, m: &Vec<u8>) -> (r: Scalar)
    ensures
        r@ == challenge(X_agg.0.encoding(), R.encoding(), m@),
{
    let mut input: Vec<u8> = Vec::new();
    input.push(SIG_DOMAIN);
    let key = X_agg.0.to_bytes();
    append_bytes(&mut input, key.as_slice());
    let nonce = R.to_bytes();
    append_bytes(&mut input, nonce.as_slice());
    append_bytes(&mut input, m.as_slice());
    assert(input@ =~= seq![SIG_DOMAIN] + X_agg.0.encoding() + R.encoding() + m@);
    hash_to_scalar(&input)
}

/// `H_agg`: the aggregation coefficient of a public key within a signer set.
pub fn h_agg(L: &PubKeyHash, X: &PubKey) -> (r: Scalar)
    ensures
        r@ == agg_coefficient(L.0@, X.0.encoding()),
{
    let mut input: Vec<u8> = Vec::new();
    input.push(AGG_DOMAIN);
    append_bytes(&mut input, L.0.as_slice());
    let key = X.0.to_bytes();
    append_bytes(&mut input, key.as_slice());
    assert(input@ =~= seq![AGG_DOMAIN] + L.0@ + X.0.encoding());
    hash_to_scalar(&input)
}

} // verus!
