//! Properties that relate several transitions of the protocol.

use crate::group::{base_mul_of, ell, le_value};
use crate::prover::{
    aggregate_nonce, binds_at, commitments_bind, log_sum, scalar_sum, NonceCommitment,
    NoncePrecommitment, PartyAwaitingSiglets, Siglet,
};
use crate::signer::{PubKey, agg_coefficient, challenge, nonce_digest, siglet_value, verification_holds};
use vstd::arithmetic::div_mod::{lemma_add_mod_noop, lemma_add_mod_noop_right, lemma_mod_twice};
use vstd::arithmetic::mul::lemma_mul_is_distributive_add;
use vstd::prelude::*;

verus! {

broadcast use vstd::seq_lib::group_to_multiset_ensures;

/// A single signer whose key is the aggregated key: the signature made of its
/// own siglet and its own commitment satisfies `s·B == R + c·a·X`, with
/// `c = H_sig(X, R, m)` and `a = H_agg(L, X)`.
pub proof fn lemma_single_signer(
    x: nat,
    m: Seq<u8>,
    L: Seq<u8>,
    commitment: NonceCommitment,
    siglet: Siglet,
)
    requires
        x < ell(),
        commitment.0.log() < ell(),
        siglet.0@ == siglet_value(
            commitment.0.log(),
            challenge(base_mul_of(x), aggregate_nonce(seq![commitment]), m),
            agg_coefficient(L, base_mul_of(x)),
            x,
        ),
    ensures
        verification_holds(
            scalar_sum(seq![siglet]) % ell(),
            log_sum(seq![commitment]) % ell(),
            challenge(base_mul_of(x), aggregate_nonce(seq![commitment]), m),
            agg_coefficient(L, base_mul_of(x)),
            x,
        ),
{
    let cs = seq![commitment];
    let ss = seq![siglet];
    assert(cs.drop_last() =~= Seq::<NonceCommitment>::empty());
    assert(ss.drop_last() =~= Seq::<Siglet>::empty());
    assert(log_sum(cs.drop_last()) == 0);
    assert(scalar_sum(ss.drop_last()) == 0);
    assert(cs.last() == commitment);
    assert(ss.last() == siglet);
    assert(log_sum(cs) == commitment.0.log());
    assert(scalar_sum(ss) == siglet.0@);
    lemma_mod_twice(siglet.0@ as int, ell() as int);
    lemma_mod_twice(le_value(siglet.0.encoding()) as int, ell() as int);
}

proof fn lemma_log_sum_remove(cs: Seq<NonceCommitment>, i: int)
    requires
        0 <= i < cs.len(),
    ensures
        log_sum(cs) == log_sum(cs.remove(i)) + cs[i].0.log(),
    decreases cs.len(),
{
    if i == cs.len() - 1 {
        assert(cs.remove(i) =~= cs.drop_last());
    } else {
        lemma_log_sum_remove(cs.drop_last(), i);
        assert(cs.remove(i).drop_last() =~= cs.drop_last().remove(i));
        assert(cs.remove(i).last() == cs.last());
    }
}

proof fn lemma_scalar_sum_remove(ss: Seq<Siglet>, i: int)
    requires
        0 <= i < ss.len(),
    ensures
        scalar_sum(ss) == scalar_sum(ss.remove(i)) + ss[i].0@,
    decreases ss.len(),
{
    if i == ss.len() - 1 {
        assert(ss.remove(i) =~= ss.drop_last());
    } else {
        lemma_scalar_sum_remove(ss.drop_last(), i);
        assert(ss.remove(i).drop_last() =~= ss.drop_last().remove(i));
        assert(ss.remove(i).last() == ss.last());
    }
}

proof fn lemma_log_sum_permutation(a: Seq<NonceCommitment>, b: Seq<NonceCommitment>)
    requires
        a.to_multiset() == b.to_multiset(),
    ensures
        log_sum(a) == log_sum(b),
    decreases a.len(),
{
    if a.len() == 0 {
        assert(a.to_multiset().len() == 0);
        assert(b.to_multiset().len() == b.len());
    } else {
        let x = a.last();
        assert(a =~= a.drop_last().push(x));
        assert(a.to_multiset().count(x) > 0);
        assert(b.contains(x));
        let i = choose|i: int| 0 <= i < b.len() && b[i] == x;
        assert(b.remove(i).to_multiset() =~= a.drop_last().to_multiset());
        lemma_log_sum_permutation(a.drop_last(), b.remove(i));
        lemma_log_sum_remove(b, i);
    }
}

proof fn lemma_scalar_sum_permutation(a: Seq<Siglet>, b: Seq<Siglet>)
    requires
        a.to_multiset() == b.to_multiset(),
    ensures
        scalar_sum(a) == scalar_sum(b),
    decreases a.len(),
{
    if a.len() == 0 {
        assert(a.to_multiset().len() == 0);
        assert(b.to_multiset().len() == b.len());
    } else {
        let x = a.last();
        assert(a =~= a.drop_last().push(x));
        assert(a.to_multiset().count(x) > 0);
        assert(b.contains(x));
        let i = choose|i: int| 0 <= i < b.len() && b[i] == x;
        assert(b.remove(i).to_multiset() =~= a.drop_last().to_multiset());
        lemma_scalar_sum_permutation(a.drop_last(), b.remove(i));
        lemma_scalar_sum_remove(b, i);
    }
}

/// Reordering the participants changes neither sum: the signature `(s, R)`
/// combined from permuted commitments and siglets is the same.
pub proof fn lemma_aggregation_commutes(
    cs1: Seq<NonceCommitment>,
    cs2: Seq<NonceCommitment>,
    ss1: Seq<Siglet>,
    ss2: Seq<Siglet>,
)
    requires
        cs1.to_multiset() == cs2.to_multiset(),
        ss1.to_multiset() == ss2.to_multiset(),
    ensures
        scalar_sum(ss1) % ell() == scalar_sum(ss2) % ell(),
        log_sum(cs1) % ell() == log_sum(cs2) % ell(),
        aggregate_nonce(cs1) == aggregate_nonce(cs2),
{
    lemma_log_sum_permutation(cs1, cs2);
    lemma_scalar_sum_permutation(ss1, ss2);
}

/// A commitment replaced after the precommitment round, by one that does not
/// hash to the same precommitment, breaks the binding of the whole round.
pub proof fn lemma_binding_enforced(
    pre: Seq<NoncePrecommitment>,
    honest: Seq<NonceCommitment>,
    substituted: Seq<NonceCommitment>,
    j: int,
)
    requires
        commitments_bind(pre, honest),
        substituted.len() == honest.len(),
        0 <= j < honest.len(),
        substituted[j] != honest[j],
        nonce_digest(substituted[j].0.encoding()) != nonce_digest(honest[j].0.encoding()),
    ensures
        !binds_at(pre, substituted, j),
        !commitments_bind(pre, substituted),
{
    assert(binds_at(pre, honest, j));
    assert(!binds_at(pre, substituted, j));
}

/// With valid siglets from every participant, changing the value of the
/// siglet at index `k` alone makes exactly that index fail verification.
pub proof fn lemma_corruption_detected(
    party: PartyAwaitingSiglets,
    honest: Seq<Siglet>,
    corrupted: Seq<Siglet>,
    pubkeys: Seq<PubKey>,
    k: int,
)
    requires
        party.lengths_match(honest, pubkeys),
        corrupted.len() == honest.len(),
        forall|j: int| 0 <= j < honest.len() ==> party.siglet_valid(honest, pubkeys, j),
        0 <= k < honest.len(),
        forall|j: int| 0 <= j < honest.len() && j != k ==> corrupted[j] == honest[j],
        corrupted[k].0@ != honest[k].0@,
    ensures
        !party.siglet_valid(corrupted, pubkeys, k),
        forall|j: int|
            0 <= j < corrupted.len() && j != k ==> party.siglet_valid(corrupted, pubkeys, j),
{
    lemma_mod_twice(le_value(corrupted[k].0.encoding()) as int, ell() as int);
    lemma_mod_twice(le_value(honest[k].0.encoding()) as int, ell() as int);
    assert(party.siglet_valid(honest, pubkeys, k));
    assert forall|j: int| 0 <= j < corrupted.len() && j != k implies party.siglet_valid(
        corrupted,
        pubkeys,
        j,
    ) by {
        assert(party.siglet_valid(honest, pubkeys, j));
    }
}

/// `Σ a_j·x_j`: the logarithm of the aggregated key `Σ a_j·X_j` when each
/// `X_j` has logarithm `x_j`.
pub open spec fn weighted_sum(coefs: Seq<nat>, keys: Seq<nat>) -> nat
    decreases coefs.len(),
{
    if coefs.len() == 0 || keys.len() == 0 {
        0
    } else {
        weighted_sum(coefs.drop_last(), keys.drop_last()) + coefs.last() * keys.last()
    }
}

/// Honest siglets of any number of parties, sharing the challenge `c`, add up
/// to a signature `(s, R)` with `s·B == R + c·X_agg` for the aggregated key
/// `X_agg = Σ a_j·X_j`.
pub proof fn lemma_aggregate_verifies(
    commitments: Seq<NonceCommitment>,
    siglets: Seq<Siglet>,
    coefs: Seq<nat>,
    keys: Seq<nat>,
    c: nat,
)
    requires
        siglets.len() == commitments.len(),
        coefs.len() == commitments.len(),
        keys.len() == commitments.len(),
        forall|j: int|
            0 <= j < siglets.len() ==> siglets[j].0@ == siglet_value(
                commitments[j].0.log(),
                c,
                coefs[j],
                keys[j],
            ),
    ensures
        scalar_sum(siglets) % ell() == (log_sum(commitments) + c * weighted_sum(coefs, keys))
            % ell(),
    decreases siglets.len(),
{
    if siglets.len() > 0 {
        let n = siglets.len() - 1;
        let (cs, ss, az, xs) = (
            commitments.drop_last(),
            siglets.drop_last(),
            coefs.drop_last(),
            keys.drop_last(),
        );
        assert forall|j: int| 0 <= j < ss.len() implies ss[j].0@ == siglet_value(
            cs[j].0.log(),
            c,
            az[j],
            xs[j],
        ) by {
            assert(siglets[j].0@ == siglet_value(commitments[j].0.log(), c, coefs[j], keys[j]));
        }
        lemma_aggregate_verifies(cs, ss, az, xs, c);
        let prev = log_sum(cs) + c * weighted_sum(az, xs);
        let step = commitments[n].0.log() + c * coefs[n] * keys[n];
        assert(siglets[n].0@ == step % ell());
        assert(siglets.last() == siglets[n]);
        assert(commitments.last() == commitments[n]);
        assert(scalar_sum(siglets) == scalar_sum(ss) + siglets[n].0@);
        assert(log_sum(commitments) == log_sum(cs) + commitments[n].0.log());
        assert(weighted_sum(coefs, keys) == weighted_sum(az, xs) + coefs[n] * keys[n]);
        lemma_add_mod_noop_right(scalar_sum(ss) as int, step as int, ell() as int);
        lemma_add_mod_noop(scalar_sum(ss) as int, step as int, ell() as int);
        lemma_add_mod_noop(prev as int, step as int, ell() as int);
        assert((scalar_sum(ss) + step) % ell() == (prev + step) % ell());
        lemma_mul_is_distributive_add(
            c as int,
            weighted_sum(az, xs) as int,
            (coefs[n] * keys[n]) as int,
        );
        assert(c * coefs[n] * keys[n] == c * (coefs[n] * keys[n])) by (nonlinear_arith);
        assert(prev + step == log_sum(commitments) + c * weighted_sum(coefs, keys));
        assert(scalar_sum(siglets) % ell() == (scalar_sum(ss) + step) % ell());
    } else {
        assert(weighted_sum(coefs, keys) == 0);
        assert(c * 0 == 0);
    }
}

} // verus!
