//! The three-phase signing state machine of one party.
//!
//! Every transition consumes the current state, so a state whose nonce has
//! been used to produce a siglet can never be driven again.

use crate::group::{
    base_mul, base_mul_of, encodes, ell, point_add, point_mul, random_scalar, scalar_add,
    scalar_mul, Point, Scalar,
};
use crate::signer::{
    agg_coefficient, challenge, h_agg, h_nonce, h_sig, nonce_digest, siglet_value,
    verification_holds, PrivKey, PubKey, PubKeyHash, Signature, SignerError,
};
use vstd::arithmetic::div_mod::{
    lemma_add_mod_noop, lemma_add_mod_noop_right, lemma_mod_twice, lemma_mul_mod_noop_left,
};
use vstd::prelude::*;

verus! {

/// A party's ephemeral secret scalar `r_i`, for one signing session only.
pub struct Nonce(Scalar);

/// The hiding commitment `H_nonce(R_i)` published in the first round.
#[derive(Clone, Copy, Debug)]
pub struct NoncePrecommitment(pub Scalar);

/// The nonce commitment `R_i = r_i·B` revealed in the second round.
#[derive(Clone, Copy, Debug)]
pub struct NonceCommitment(pub Point);

/// A party's partial signature `s_i`.
#[derive(Clone, Copy, Debug)]
pub struct Siglet(pub Scalar);

/// Sum of the logarithms of the commitments.
pub open spec fn log_sum(cs: Seq<NonceCommitment>) -> nat
    decreases cs.len(),
{
    if cs.len() == 0 {
        0
    } else {
        log_sum(cs.drop_last()) + cs.last().0.log()
    }
}

/// Sum of the values of the siglets.
pub open spec fn scalar_sum(ss: Seq<Siglet>) -> nat
    decreases ss.len(),
{
    if ss.len() == 0 {
        0
    } else {
        scalar_sum(ss.drop_last()) + ss.last().0@
    }
}

/// The encoding of the aggregated nonce commitment `R = Σ R_j`.
pub open spec fn aggregate_nonce(cs: Seq<NonceCommitment>) -> Seq<u8> {
    base_mul_of(log_sum(cs) % ell())
}

/// The commitment at index `j` hashes to the precommitment at index `j`.
pub open spec fn binds_at(pre: Seq<NoncePrecommitment>, cs: Seq<NonceCommitment>, j: int) -> bool {
    pre[j].0.encoding() == nonce_digest(cs[j].0.encoding())
}

/// Every commitment hashes to its precommitment.
pub open spec fn commitments_bind(pre: Seq<NoncePrecommitment>, cs: Seq<NonceCommitment>) -> bool {
    forall|j: int| 0 <= j < cs.len() ==> binds_at(pre, cs, j)
}

/// Precommitments and commitments are non-empty and one per participant.
pub open spec fn rounds_aligned(pre: Seq<NoncePrecommitment>, cs: Seq<NonceCommitment>) -> bool {
    cs.len() > 0 && cs.len() == pre.len()
}

proof fn lemma_siglet_arith(r: nat, c: nat, a: nat, x: nat)
    ensures
        (r + ((c * a) % ell()) * x % ell()) % ell() == (r + c * a * x) % ell(),
{
    let m = ell() as int;
    lemma_mul_mod_noop_left((c * a) as int, x as int, m);
    lemma_add_mod_noop_right(r as int, (c * a * x) as int, m);
}

fn sum_commitments(cs: &Vec<NonceCommitment>) -> (r: Point)
    requires
        cs.len() > 0,
    ensures
        encodes(r.encoding(), log_sum(cs@) % ell()),
{
    let mut acc = cs[0].0;
    acc.establish_log();
    assert(cs@.subrange(0, 1).drop_last() =~= cs@.subrange(0, 0));
    assert(log_sum(cs@.subrange(0, 0)) == 0);
    assert(cs@.subrange(0, 1).last() == cs@[0]);
    assert(log_sum(cs@.subrange(0, 1)) == acc.log());
    let mut i: usize = 1;
    while i < cs.len()
        invariant
            1 <= i <= cs.len(),
            encodes(acc.encoding(), log_sum(cs@.subrange(0, i as int)) % ell()),
        decreases cs.len() - i,
    {
        cs[i].0.establish_log();
        let next = point_add(&acc, &cs[i].0);
        proof {
            let prev = log_sum(cs@.subrange(0, i as int));
            assert(cs@.subrange(0, i + 1).drop_last() =~= cs@.subrange(0, i as int));
            lemma_add_mod_noop(prev as int, cs@[i as int].0.log() as int, ell() as int);
            lemma_mod_twice(cs@[i as int].0.log() as int, ell() as int);
        }
        acc = next;
        i += 1;
    }
    assert(cs@.subrange(0, cs.len() as int) =~= cs@);
    acc
}

fn sum_siglets(ss: &Vec<Siglet>) -> (r: Scalar)
    ensures
        r@ == scalar_sum(ss@) % ell(),
{
    let mut acc = Scalar::zero();
    let mut i: usize = 0;
    while i < ss.len()
        invariant
            i <= ss.len(),
            acc@ == scalar_sum(ss@.subrange(0, i as int)) % ell(),
        decreases ss.len() - i,
    {
        let next = scalar_add(&acc, &ss[i].0);
        proof {
            let prev = scalar_sum(ss@.subrange(0, i as int));
            assert(ss@.subrange(0, i + 1).drop_last() =~= ss@.subrange(0, i as int));
            lemma_add_mod_noop(prev as int, ss@[i as int].0@ as int, ell() as int);
            lemma_mod_twice(ss@[i as int].0@ as int, ell() as int);
        }
        acc = next;
        i += 1;
    }
    assert(ss@.subrange(0, ss.len() as int) =~= ss@);
    acc
}

impl Nonce {
    /// The value of the nonce.
    pub closed spec fn value(self) -> nat {
        self.0@
    }

    /// Draws a fresh nonce from a cryptographically secure generator.
    pub fn random() -> (r: Nonce) {
        Nonce(random_scalar())
    }
}

/// State A: the nonce is drawn and committed to, peers' precommitments awaited.
#[allow(non_snake_case)]
pub struct PartyAwaitingPrecommitments {
    X_agg: PubKey,
    L: PubKeyHash,
    x_i: PrivKey,
    r_i: Nonce,
    R_i: NonceCommitment,
}

/// State B: precommitments stored, peers' nonce commitments awaited.
#[allow(non_snake_case)]
pub struct PartyAwaitingCommitments {
    X_agg: PubKey,
    L: PubKeyHash,
    x_i: PrivKey,
    r_i: Nonce,
    nonce_precommitments: Vec<NoncePrecommitment>,
}

/// State C: siglet produced, peers' siglets awaited.
#[allow(non_snake_case)]
pub struct PartyAwaitingSiglets {
    X_agg: PubKey,
    L: PubKeyHash,
    m: Vec<u8>,
    nonce_commitments: Vec<NonceCommitment>,
}

impl PartyAwaitingPrecommitments {
    /// The aggregated public key `X_agg` of the session.
    pub closed spec fn agg_key(self) -> PubKey {
        self.X_agg
    }

    /// The hash `L` of the signer set.
    pub closed spec fn pubkey_hash(self) -> PubKeyHash {
        self.L
    }

    /// The value of the party's private key.
    pub closed spec fn privkey(self) -> nat {
        self.x_i.0@
    }

    /// The value of the party's nonce.
    pub closed spec fn nonce(self) -> nat {
        self.r_i.0@
    }

    /// The party's own nonce commitment `R_i`.
    pub closed spec fn commitment(self) -> NonceCommitment {
        self.R_i
    }

    /// Starts a session with a fresh random nonce; returns the party and the
    /// precommitment `H_nonce(r_i·B)` to broadcast.
    #[allow(non_snake_case)]
    pub fn new(x_i: PrivKey, X_agg: PubKey, L: PubKeyHash) -> (r: (Self, NoncePrecommitment))
        ensures
            r.0.agg_key() == X_agg,
            r.0.pubkey_hash() == L,
            r.0.privkey() == x_i.0@,
            encodes(r.0.commitment().0.encoding(), r.0.nonce()),
            r.1.0.encoding() == nonce_digest(r.0.commitment().0.encoding()),
    {
        Self::with_nonce(x_i, X_agg, L, Nonce::random())
    }

    /// Starts a session with the nonce `r_i`, which must never serve another
    /// session; returns the party and the precommitment `H_nonce(r_i·B)`.
    #[allow(non_snake_case)]
    pub fn with_nonce(x_i: PrivKey, X_agg: PubKey, L: PubKeyHash, r_i: Nonce) -> (r: (
        Self,
        NoncePrecommitment,
    ))
        ensures
            r.0.agg_key() == X_agg,
            r.0.pubkey_hash() == L,
            r.0.privkey() == x_i.0@,
            r.0.nonce() == r_i.value(),
            encodes(r.0.commitment().0.encoding(), r_i.value()),
            r.1.0.encoding() == nonce_digest(r.0.commitment().0.encoding()),
    {
        let R_i = NonceCommitment(base_mul(&r_i.0));
        let precommitment = NoncePrecommitment(h_nonce(&R_i.0));
        (PartyAwaitingPrecommitments { X_agg, L, x_i, r_i, R_i }, precommitment)
    }

    /// Stores every party's precommitment, in participant order, and reveals
    /// this party's nonce commitment `R_i`.
    pub fn receive_precommitments(self, nonce_precommitments: Vec<NoncePrecommitment>) -> (r: (
        PartyAwaitingCommitments,
        NonceCommitment,
    ))
        ensures
            r.0.agg_key() == self.agg_key(),
            r.0.pubkey_hash() == self.pubkey_hash(),
            r.0.privkey() == self.privkey(),
            r.0.nonce() == self.nonce(),
            r.0.precommitments() == nonce_precommitments@,
            r.1 == self.commitment(),
    {
        (
            PartyAwaitingCommitments {
                X_agg: self.X_agg,
                L: self.L,
                x_i: self.x_i,
                r_i: self.r_i,
                nonce_precommitments,
            },
            self.R_i,
        )
    }
}

impl PartyAwaitingCommitments {
    /// The aggregated public key `X_agg` of the session.
    pub closed spec fn agg_key(self) -> PubKey {
        self.X_agg
    }

    /// The hash `L` of the signer set.
    pub closed spec fn pubkey_hash(self) -> PubKeyHash {
        self.L
    }

    /// The value of the party's private key.
    pub closed spec fn privkey(self) -> nat {
        self.x_i.0@
    }

    /// The value of the party's nonce.
    pub closed spec fn nonce(self) -> nat {
        self.r_i.0@
    }

    /// The stored precommitments, in participant order.
    pub closed spec fn precommitments(self) -> Seq<NoncePrecommitment> {
        self.nonce_precommitments@
    }

    /// Checks every nonce commitment against its precommitment and, if all
    /// match, computes this party's siglet `r_i + c·a_i·x_i` over message `m`,
    /// with `c = H_sig(X_agg, Σ R_j, m)` and `a_i = H_agg(L, x_i·B)`.
    pub fn receive_commitments(self, nonce_commitments: Vec<NonceCommitment>, m: Vec<u8>) -> (r:
        Result<(PartyAwaitingSiglets, Siglet), SignerError>)
        ensures
            match r {
                Ok((next, siglet)) => {
                    &&& rounds_aligned(self.precommitments(), nonce_commitments@)
                    &&& commitments_bind(self.precommitments(), nonce_commitments@)
                    &&& siglet.0@ == siglet_value(
                        self.nonce(),
                        challenge(
                            self.agg_key().0.encoding(),
                            aggregate_nonce(nonce_commitments@),
                            m@,
                        ),
                        agg_coefficient(self.pubkey_hash().0@, base_mul_of(self.privkey())),
                        self.privkey(),
                    )
                    &&& next.agg_key() == self.agg_key()
                    &&& next.pubkey_hash() == self.pubkey_hash()
                    &&& next.message() == m@
                    &&& next.commitments() == nonce_commitments@
                },
                Err(SignerError::MalformedInput) => !rounds_aligned(
                    self.precommitments(),
                    nonce_commitments@,
                ),
                Err(SignerError::BindingViolation { index }) => {
                    &&& rounds_aligned(self.precommitments(), nonce_commitments@)
                    &&& index < nonce_commitments.len()
                    &&& !binds_at(self.precommitments(), nonce_commitments@, index as int)
                    &&& forall|j: int|
                        0 <= j < index ==> binds_at(self.precommitments(), nonce_commitments@, j)
                },
                Err(SignerError::SigletInvalid { .. }) => false,
            },
    {
        let n = nonce_commitments.len();
        if n == 0 || n != self.nonce_precommitments.len() {
            return Err(SignerError::MalformedInput);
        }
        let mut j: usize = 0;
        while j < n
            invariant
                n == nonce_commitments.len(),
                n == self.nonce_precommitments.len(),
                j <= n,
                forall|i: int| 0 <= i < j ==> binds_at(self.precommitments(), nonce_commitments@, i),
            decreases n - j,
        {
            let digest = h_nonce(&nonce_commitments[j].0);
            if !digest.same_bytes(&self.nonce_precommitments[j].0) {
                return Err(SignerError::BindingViolation { index: j });
            }
            j += 1;
        }
        #[allow(non_snake_case)]
        let R = sum_commitments(&nonce_commitments);
        let c = h_sig(&self.X_agg, &R, &m);
        #[allow(non_snake_case)]
        let X_i = PubKey(base_mul(&self.x_i.0));
        let a_i = h_agg(&self.L, &X_i);
        let ca = scalar_mul(&c, &a_i);
        let cax = scalar_mul(&ca, &self.x_i.0);
        let s_i = scalar_add(&self.r_i.0, &cax);
        proof {
            lemma_siglet_arith(self.r_i.0@, c@, a_i@, self.x_i.0@);
        }
        Ok((PartyAwaitingSiglets { X_agg: self.X_agg, L: self.L, m, nonce_commitments }, Siglet(s_i)))
    }
}

impl PartyAwaitingSiglets {
    #[verifier::type_invariant]
    spec fn has_commitments(self) -> bool {
        self.nonce_commitments.len() > 0
    }

    /// The aggregated public key `X_agg` of the session.
    pub closed spec fn agg_key(self) -> PubKey {
        self.X_agg
    }

    /// The hash `L` of the signer set.
    pub closed spec fn pubkey_hash(self) -> PubKeyHash {
        self.L
    }

    /// The message being signed.
    pub closed spec fn message(self) -> Seq<u8> {
        self.m@
    }

    /// The nonce commitments of all parties, in participant order.
    pub closed spec fn commitments(self) -> Seq<NonceCommitment> {
        self.nonce_commitments@
    }

    /// The challenge `c = H_sig(X_agg, R, m)` of the session.
    pub open spec fn session_challenge(self) -> nat {
        challenge(self.agg_key().0.encoding(), aggregate_nonce(self.commitments()), self.message())
    }

    /// The siglet at index `j` satisfies `s_j·B == R_j + c·a_j·X_j`.
    pub open spec fn siglet_valid(self, siglets: Seq<Siglet>, pubkeys: Seq<PubKey>, j: int) -> bool {
        verification_holds(
            siglets[j].0@,
            self.commitments()[j].0.log(),
            self.session_challenge(),
            agg_coefficient(self.pubkey_hash().0@, pubkeys[j].0.encoding()),
            pubkeys[j].0.log(),
        )
    }

    /// Siglets and public keys come one per participant.
    pub open spec fn lengths_match(self, siglets: Seq<Siglet>, pubkeys: Seq<PubKey>) -> bool {
        siglets.len() == self.commitments().len() && pubkeys.len() == self.commitments().len()
    }

    /// Combines the siglets, unchecked, into the signature `(Σ s_j, Σ R_j)`.
    pub fn receive_siglets(self, siglets: Vec<Siglet>) -> (r: Signature)
        ensures
            r.s@ == scalar_sum(siglets@) % ell(),
            r.R.0.encoding() == aggregate_nonce(self.commitments()),
            r.R.0.log() == log_sum(self.commitments()) % ell(),
    {
        proof {
            use_type_invariant(&self);
        }
        let s = sum_siglets(&siglets);
        #[allow(non_snake_case)]
        let R = sum_commitments(&self.nonce_commitments);
        Signature { s, R: NonceCommitment(R) }
    }

    /// Checks each siglet against its signer's public key, in participant
    /// order, and combines them only if every one is valid.
    pub fn receive_and_verify_siglets(self, siglets: Vec<Siglet>, pubkeys: Vec<PubKey>) -> (r:
        Result<Signature, SignerError>)
        ensures
            match r {
                Ok(sig) => {
                    &&& self.lengths_match(siglets@, pubkeys@)
                    &&& forall|j: int|
                        0 <= j < siglets.len() ==> self.siglet_valid(siglets@, pubkeys@, j)
                    &&& sig.s@ == scalar_sum(siglets@) % ell()
                    &&& sig.R.0.encoding() == aggregate_nonce(self.commitments())
                    &&& sig.R.0.log() == log_sum(self.commitments()) % ell()
                },
                Err(SignerError::MalformedInput) => !self.lengths_match(siglets@, pubkeys@),
                Err(SignerError::SigletInvalid { index }) => {
                    &&& self.lengths_match(siglets@, pubkeys@)
                    &&& index < siglets.len()
                    &&& !self.siglet_valid(siglets@, pubkeys@, index as int)
                    &&& forall|j: int| 0 <= j < index ==> self.siglet_valid(siglets@, pubkeys@, j)
                },
                Err(SignerError::BindingViolation { .. }) => false,
            },
    {
        proof {
            use_type_invariant(&self);
        }
        let n = self.nonce_commitments.len();
        if siglets.len() != n || pubkeys.len() != n {
            return Err(SignerError::MalformedInput);
        }
        #[allow(non_snake_case)]
        let R = sum_commitments(&self.nonce_commitments);
        let c = h_sig(&self.X_agg, &R, &self.m);
        let mut j: usize = 0;
        while j < n
            invariant
                n == self.nonce_commitments.len(),
                n == siglets.len(),
                n == pubkeys.len(),
                j <= n,
                c@ == self.session_challenge(),
                forall|i: int| 0 <= i < j ==> self.siglet_valid(siglets@, pubkeys@, i),
            decreases n - j,
        {
            let a_j = h_agg(&self.L, &pubkeys[j]);
            let lhs = base_mul(&siglets[j].0);
            let ca = scalar_mul(&c, &a_j);
            let t = point_mul(&ca, &pubkeys[j].0);
            let rhs = point_add(&self.nonce_commitments[j].0, &t);
            proof {
                lemma_siglet_arith(
                    self.nonce_commitments@[j as int].0.log(),
                    c@,
                    a_j@,
                    pubkeys@[j as int].0.log(),
                );
                lemma_mod_twice(
                    crate::group::le_value(siglets@[j as int].0.encoding()) as int,
                    ell() as int,
                );
            }
            if !lhs.equals(&rhs) {
                return Err(SignerError::SigletInvalid { index: j });
            }
            j += 1;
        }
        Ok(self.receive_siglets(siglets))
    }
}

} // verus!
