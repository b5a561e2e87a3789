use curve25519_dalek::constants::RISTRETTO_BASEPOINT_POINT;
use curve25519_dalek::ristretto::{CompressedRistretto, RistrettoPoint};
use curve25519_dalek::scalar::Scalar as DalekScalar;
use zkvm_signer::group::{Point, Scalar};
use zkvm_signer::prover::{
    NonceCommitment, NoncePrecommitment, PartyAwaitingPrecommitments, PartyAwaitingSiglets,
    Siglet,
};
use zkvm_signer::signer::{h_agg, h_nonce, h_sig, PrivKey, PubKey, PubKeyHash, Signature, SignerError};

fn dalek(s: &Scalar) -> DalekScalar {
    DalekScalar::from_canonical_bytes(s.to_bytes()).unwrap()
}

fn lib_scalar(s: DalekScalar) -> Scalar {
    Scalar::from_bytes_mod_order(s.to_bytes())
}

fn lib_point(p: RistrettoPoint) -> Point {
    Point::from_bytes(p.compress().to_bytes()).unwrap()
}

fn decode(p: &Point) -> RistrettoPoint {
    CompressedRistretto(p.to_bytes()).decompress().unwrap()
}

fn privkey(n: u64) -> PrivKey {
    PrivKey(lib_scalar(DalekScalar::from(n * 7919 + 13)))
}

fn pubkey(x: &PrivKey) -> PubKey {
    PubKey(lib_point(RISTRETTO_BASEPOINT_POINT * dalek(&x.0)))
}

fn pubkey_hash() -> PubKeyHash {
    PubKeyHash([42u8; 32])
}

/// Aggregated key `Σ H_agg(L, X_j)·X_j`.
fn aggregate_key(keys: &[PubKey], l: &PubKeyHash) -> PubKey {
    let mut acc = RistrettoPoint::default();
    for k in keys {
        acc += decode(&k.0) * dalek(&h_agg(l, k));
    }
    PubKey(lib_point(acc))
}

/// Runs the first round for every key; returns the parties waiting for
/// commitments, and the commitments they revealed.
fn run_to_commitments(
    privs: &[PrivKey],
    x_agg: PubKey,
    l: PubKeyHash,
) -> (Vec<zkvm_signer::prover::PartyAwaitingCommitments>, Vec<NonceCommitment>) {
    let mut parties = Vec::new();
    let mut pres: Vec<NoncePrecommitment> = Vec::new();
    for x in privs {
        let (p, pre) = PartyAwaitingPrecommitments::new(*x, x_agg, l);
        parties.push(p);
        pres.push(pre);
    }
    let mut next = Vec::new();
    let mut comms = Vec::new();
    for p in parties {
        let (q, c) = p.receive_precommitments(pres.clone());
        next.push(q);
        comms.push(c);
    }
    (next, comms)
}

fn run_to_siglets(
    privs: &[PrivKey],
    x_agg: PubKey,
    l: PubKeyHash,
    m: &[u8],
) -> (Vec<PartyAwaitingSiglets>, Vec<Siglet>, Vec<NonceCommitment>) {
    let (parties, comms) = run_to_commitments(privs, x_agg, l);
    let mut waiting = Vec::new();
    let mut siglets = Vec::new();
    for p in parties {
        let (q, s) = p.receive_commitments(comms.clone(), m.to_vec()).unwrap();
        waiting.push(q);
        siglets.push(s);
    }
    (waiting, siglets, comms)
}

fn satisfies_schnorr(sig: &Signature, x_agg: &PubKey, m: &[u8]) -> bool {
    let c = dalek(&h_sig(x_agg, &sig.R.0, &m.to_vec()));
    RISTRETTO_BASEPOINT_POINT * dalek(&sig.s) == decode(&sig.R.0) + decode(&x_agg.0) * c
}

#[test]
fn single_signer_satisfies_verification_equation() {
    let l = pubkey_hash();
    for n in 0..5u64 {
        let x = privkey(n);
        let big_x = pubkey(&x);
        let m = vec![n as u8, 1, 2, 3];
        let (mut waiting, siglets, _) = run_to_siglets(&[x], big_x, l, &m);
        let sig = waiting.remove(0).receive_siglets(siglets);
        let c = dalek(&h_sig(&big_x, &sig.R.0, &m));
        let a = dalek(&h_agg(&l, &big_x));
        assert_eq!(
            RISTRETTO_BASEPOINT_POINT * dalek(&sig.s),
            decode(&sig.R.0) + decode(&big_x.0) * (c * a)
        );
    }
}

#[test]
fn three_party_signature_verifies_against_aggregated_key() {
    let l = pubkey_hash();
    let privs = [privkey(1), privkey(2), privkey(3)];
    let pubs: Vec<PubKey> = privs.iter().map(pubkey).collect();
    let x_agg = aggregate_key(&pubs, &l);
    let m = b"test".to_vec();
    let (mut waiting, siglets, _) = run_to_siglets(&privs, x_agg, l, &m);
    let sig = waiting.remove(0).receive_and_verify_siglets(siglets, pubs).unwrap();
    assert!(satisfies_schnorr(&sig, &x_agg, &m));
    assert!(!satisfies_schnorr(&sig, &x_agg, b"tesu"));
}

#[test]
fn every_party_combines_the_same_signature() {
    let l = pubkey_hash();
    let privs = [privkey(4), privkey(5), privkey(6)];
    let pubs: Vec<PubKey> = privs.iter().map(pubkey).collect();
    let x_agg = aggregate_key(&pubs, &l);
    let m = b"same".to_vec();
    let (waiting, siglets, _) = run_to_siglets(&privs, x_agg, l, &m);
    let sigs: Vec<Signature> = waiting.into_iter().map(|p| p.receive_siglets(siglets.clone())).collect();
    for s in &sigs {
        assert_eq!(s.s.to_bytes(), sigs[0].s.to_bytes());
        assert_eq!(s.R.0.to_bytes(), sigs[0].R.0.to_bytes());
    }
}

#[test]
fn permuting_participants_keeps_the_signature() {
    let l = pubkey_hash();
    let privs = [privkey(7), privkey(8), privkey(9)];
    let pubs: Vec<PubKey> = privs.iter().map(pubkey).collect();
    let x_agg = aggregate_key(&pubs, &l);
    let m = b"order".to_vec();
    let mut parties = Vec::new();
    let mut pres = Vec::new();
    for x in &privs {
        let (p, pre) = PartyAwaitingPrecommitments::new(*x, x_agg, l);
        parties.push(p);
        pres.push(pre);
    }
    let mut rev_pres = pres.clone();
    rev_pres.reverse();
    // Party 0 lists the participants in order, parties 1 and 2 in reverse.
    let mut waiting = Vec::new();
    let mut comms = Vec::new();
    for (i, p) in parties.into_iter().enumerate() {
        let list = if i == 0 { pres.clone() } else { rev_pres.clone() };
        let (q, c) = p.receive_precommitments(list);
        waiting.push(q);
        comms.push(c);
    }
    let mut rev_comms = comms.clone();
    rev_comms.reverse();
    let mut siglets = Vec::new();
    let mut done = Vec::new();
    for (i, q) in waiting.into_iter().enumerate() {
        let list = if i == 0 { comms.clone() } else { rev_comms.clone() };
        let (d, s) = q.receive_commitments(list, m.clone()).unwrap();
        done.push(d);
        siglets.push(s);
    }
    let mut rev_siglets = siglets.clone();
    rev_siglets.reverse();
    let mut rev_pubs = pubs.clone();
    rev_pubs.reverse();
    let first = done.remove(0).receive_and_verify_siglets(siglets, pubs).unwrap();
    let second = done.remove(0).receive_and_verify_siglets(rev_siglets, rev_pubs).unwrap();
    assert_eq!(first.s.to_bytes(), second.s.to_bytes());
    assert_eq!(first.R.0.to_bytes(), second.R.0.to_bytes());
    assert!(satisfies_schnorr(&first, &x_agg, &m));
    let r_sum: RistrettoPoint = rev_comms.iter().map(|c| decode(&c.0)).sum();
    assert_eq!(decode(&first.R.0), r_sum);
}

#[test]
fn substituted_commitment_is_a_binding_violation() {
    let l = pubkey_hash();
    let privs = [privkey(10), privkey(11), privkey(12)];
    let pubs: Vec<PubKey> = privs.iter().map(pubkey).collect();
    let x_agg = aggregate_key(&pubs, &l);
    let (mut parties, comms) = run_to_commitments(&privs, x_agg, l);
    let mut tampered = comms.clone();
    tampered[1] = NonceCommitment(lib_point(decode(&comms[1].0) + RISTRETTO_BASEPOINT_POINT));
    let r = parties.remove(0).receive_commitments(tampered, b"m".to_vec());
    assert!(matches!(r, Err(SignerError::BindingViolation { index: 1 })));
}

#[test]
fn commitment_from_another_session_is_a_binding_violation() {
    let l = pubkey_hash();
    let privs = [privkey(13), privkey(14)];
    let pubs: Vec<PubKey> = privs.iter().map(pubkey).collect();
    let x_agg = aggregate_key(&pubs, &l);
    let (mut parties, comms) = run_to_commitments(&privs, x_agg, l);
    let (_, other_comms) = run_to_commitments(&privs, x_agg, l);
    let mut tampered = comms.clone();
    tampered[0] = other_comms[0];
    let r = parties.remove(1).receive_commitments(tampered, b"m".to_vec());
    assert!(matches!(r, Err(SignerError::BindingViolation { index: 0 })));
}

#[test]
fn misaligned_rounds_are_malformed() {
    let l = pubkey_hash();
    let privs = [privkey(15), privkey(16)];
    let pubs: Vec<PubKey> = privs.iter().map(pubkey).collect();
    let x_agg = aggregate_key(&pubs, &l);
    let (mut parties, comms) = run_to_commitments(&privs, x_agg, l);
    let r = parties.remove(0).receive_commitments(comms[..1].to_vec(), b"m".to_vec());
    assert!(matches!(r, Err(SignerError::MalformedInput)));
    let r = parties.remove(0).receive_commitments(Vec::new(), b"m".to_vec());
    assert!(matches!(r, Err(SignerError::MalformedInput)));
}

#[test]
fn empty_round_is_malformed() {
    let x = privkey(17);
    let (p, _) = PartyAwaitingPrecommitments::new(x, pubkey(&x), pubkey_hash());
    let (q, _) = p.receive_precommitments(Vec::new());
    let r = q.receive_commitments(Vec::new(), Vec::new());
    assert!(matches!(r, Err(SignerError::MalformedInput)));
}

#[test]
fn corrupted_siglet_is_attributed_to_its_index() {
    let l = pubkey_hash();
    let privs = [privkey(18), privkey(19), privkey(20), privkey(21)];
    let pubs: Vec<PubKey> = privs.iter().map(pubkey).collect();
    let x_agg = aggregate_key(&pubs, &l);
    let m = b"accountable".to_vec();
    for bad in 0..4usize {
        let (mut waiting, siglets, _) = run_to_siglets(&privs, x_agg, l, &m);
        let mut corrupted = siglets.clone();
        corrupted[bad] = Siglet(lib_scalar(dalek(&siglets[bad].0) + DalekScalar::ONE));
        let r = waiting.remove(0).receive_and_verify_siglets(corrupted, pubs.clone());
        assert!(matches!(r, Err(SignerError::SigletInvalid { index }) if index == bad));
        let honest = waiting.remove(0).receive_and_verify_siglets(siglets.clone(), pubs.clone()).unwrap();
        let plain = waiting.remove(0).receive_siglets(siglets);
        assert_eq!(honest.s.to_bytes(), plain.s.to_bytes());
        assert_eq!(honest.R.0.to_bytes(), plain.R.0.to_bytes());
    }
}

#[test]
fn wrong_public_key_fails_verification() {
    let l = pubkey_hash();
    let privs = [privkey(22), privkey(23)];
    let pubs: Vec<PubKey> = privs.iter().map(pubkey).collect();
    let x_agg = aggregate_key(&pubs, &l);
    let (mut waiting, siglets, _) = run_to_siglets(&privs, x_agg, l, b"k");
    let swapped = vec![pubs[1], pubs[0]];
    let r = waiting.remove(0).receive_and_verify_siglets(siglets, swapped);
    assert!(matches!(r, Err(SignerError::SigletInvalid { index: 0 })));
}

#[test]
fn siglet_vectors_of_wrong_length_are_malformed() {
    let l = pubkey_hash();
    let privs = [privkey(24), privkey(25)];
    let pubs: Vec<PubKey> = privs.iter().map(pubkey).collect();
    let x_agg = aggregate_key(&pubs, &l);
    let (mut waiting, siglets, _) = run_to_siglets(&privs, x_agg, l, b"k");
    let r = waiting.remove(0).receive_and_verify_siglets(siglets[..1].to_vec(), pubs.clone());
    assert!(matches!(r, Err(SignerError::MalformedInput)));
    let r = waiting.remove(0).receive_and_verify_siglets(siglets, pubs[..1].to_vec());
    assert!(matches!(r, Err(SignerError::MalformedInput)));
}

#[test]
fn sessions_never_share_a_nonce() {
    let x = privkey(26);
    let big_x = pubkey(&x);
    let mut seen = std::collections::HashSet::new();
    for _ in 0..200 {
        let (p, _) = PartyAwaitingPrecommitments::new(x, big_x, pubkey_hash());
        let (_, c) = p.receive_precommitments(Vec::new());
        assert!(seen.insert(c.0.to_bytes()));
    }
}

#[test]
fn precommitment_is_the_hash_of_the_commitment() {
    let x = privkey(27);
    let (p, pre) = PartyAwaitingPrecommitments::new(x, pubkey(&x), pubkey_hash());
    let (_, c) = p.receive_precommitments(vec![pre]);
    assert_eq!(h_nonce(&c.0).to_bytes(), pre.0.to_bytes());
    assert_ne!(pre.0.to_bytes(), c.0.to_bytes());
}

#[test]
fn hashes_are_domain_separated() {
    let x = privkey(28);
    let big_x = pubkey(&x);
    let l = PubKeyHash(big_x.0.to_bytes());
    let a = h_agg(&l, &big_x);
    let c = h_sig(&big_x, &big_x.0, &Vec::new());
    let n = h_nonce(&big_x.0);
    assert_ne!(a.to_bytes(), c.to_bytes());
    assert_ne!(a.to_bytes(), n.to_bytes());
    assert_ne!(c.to_bytes(), n.to_bytes());
    assert_ne!(h_sig(&big_x, &big_x.0, &vec![1]).to_bytes(), c.to_bytes());
}

#[test]
fn scalars_reduce_modulo_the_group_order() {
    let ell = DalekScalar::ZERO - DalekScalar::ONE;
    let mut bytes = ell.to_bytes();
    bytes[0] += 1;
    assert_eq!(Scalar::from_bytes_mod_order(bytes).to_bytes(), [0u8; 32]);
    bytes[0] += 5;
    let mut five = [0u8; 32];
    five[0] = 5;
    assert_eq!(Scalar::from_bytes_mod_order(bytes).to_bytes(), five);
    assert_eq!(Scalar::zero().to_bytes(), [0u8; 32]);
}

#[test]
fn points_decode_only_canonical_encodings() {
    assert!(Point::from_bytes([0xffu8; 32]).is_none());
    let b = RISTRETTO_BASEPOINT_POINT.compress().to_bytes();
    let p = Point::from_bytes(b).unwrap();
    assert_eq!(p.to_bytes(), b);
    let q = lib_point(RISTRETTO_BASEPOINT_POINT + RistrettoPoint::default());
    assert!(p.equals(&q));
    assert!(!p.equals(&lib_point(RISTRETTO_BASEPOINT_POINT * DalekScalar::from(2u64))));
}
