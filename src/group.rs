//! Scalars and points of the Ristretto group, and the arithmetic the protocol
//! needs from them.
//!
//! A point is held as its canonical 32-byte compressed encoding and modelled
//! by its discrete logarithm to the base point `B`; a scalar is held as 32
//! little-endian bytes and modelled by their value modulo `ℓ`.

use vstd::arithmetic::div_mod::lemma_mod_twice;
use vstd::prelude::*;

verus! {

/// The order `ℓ` of the Ristretto group, a prime.
pub open spec fn ell() -> nat {
    7237005577332262213973186563042994240857116359379907606001950938285454250989nat
}

/// The integer that a little-endian byte string encodes.
pub open spec fn le_value(b: Seq<u8>) -> nat
    decreases b.len(),
{
    if b.len() == 0 {
        0
    } else {
        b[0] as nat + 256 * le_value(b.drop_first())
    }
}

/// The canonical compressed encoding of the point `k·B`, as
/// `RistrettoPoint::mul_base` followed by `compress` returns it.
pub uninterp spec fn base_mul_of(k: nat) -> Seq<u8>;

/// The bytes of `Scalar::hash_from_bytes::<Sha512>(input)`.
pub uninterp spec fn hash_to_scalar_of(input: Seq<u8>) -> Seq<u8>;

/// The bytes are the canonical encoding of a group element.
pub open spec fn is_point(b: Seq<u8>) -> bool {
    exists|k: nat| k < ell() && base_mul_of(k) == b
}

/// The discrete logarithm, to the base `B`, of the point that `b` encodes.
/// It is unique: `k ↦ k·B` is one-to-one on `0..ℓ` since `B` generates a
/// group of prime order `ℓ`.
pub open spec fn point_log(b: Seq<u8>) -> nat {
    choose|k: nat| k < ell() && base_mul_of(k) == b
}

/// `p` is the encoding of `k·B`, and `k` is its logarithm.
pub open spec fn encodes(p: Seq<u8>, k: nat) -> bool {
    p == base_mul_of(k) && point_log(p) == k
}

/// An element of the scalar field, integers modulo `ℓ`.
#[derive(Clone, Copy, Debug)]
pub struct Scalar {
    bytes: [u8; 32],
}

/// An element of the Ristretto group, held as its compressed encoding.
#[derive(Clone, Copy, Debug)]
pub struct Point {
    bytes: [u8; 32],
}

impl View for Scalar {
    type V = nat;

    open spec fn view(&self) -> nat {
        le_value(self.encoding()) % ell()
    }
}

impl Scalar {
    /// The bytes this scalar is held as.
    pub closed spec fn encoding(self) -> Seq<u8> {
        self.bytes@
    }

    /// The scalar zero.
    pub fn zero() -> (r: Scalar)
        ensures
            r@ == 0,
    {
        let r = Scalar { bytes: [0u8; 32] };
        proof {
            lemma_le_value_zeros(r.bytes@);
        }
        r
    }

    /// The little-endian integer `bytes` encodes, reduced modulo `ℓ`.
    pub fn from_bytes_mod_order(bytes: [u8; 32]) -> (r: Scalar)
        ensures
            r@ == le_value(bytes@) % ell(),
    {
        let r = reduce(bytes);
        proof {
            lemma_mod_twice(le_value(bytes@) as int, ell() as int);
        }
        r
    }

    /// Whether two scalars are held as the same bytes.
    pub fn same_bytes(&self, other: &Scalar) -> (r: bool)
        ensures
            r == (self.encoding() == other.encoding()),
    {
        bytes_equal(&self.bytes, &other.bytes)
    }

    /// The 32 little-endian bytes of this scalar.
    pub fn to_bytes(&self) -> (r: [u8; 32])
        ensures
            r@ == self.encoding(),
    {
        self.bytes
    }
}

impl Point {
    #[verifier::type_invariant]
    spec fn canonical(self) -> bool {
        is_point(self.bytes@)
    }

    /// The compressed encoding of this point.
    pub closed spec fn encoding(self) -> Seq<u8> {
        self.bytes@
    }

    /// The discrete logarithm of this point to the base `B`.
    pub open spec fn log(self) -> nat {
        point_log(self.encoding())
    }

    /// The point that `bytes` encode, if they are a canonical encoding.
    pub fn from_bytes(bytes: [u8; 32]) -> (r: Option<Point>)
        ensures
            r is Some <==> is_point(bytes@),
            r matches Some(p) ==> p.encoding() == bytes@,
    {
        if is_canonical_point(&bytes) {
            Some(Point { bytes })
        } else {
            None
        }
    }

    /// The compressed encoding of this point.
    pub fn to_bytes(&self) -> (r: [u8; 32])
        ensures
            r@ == self.encoding(),
    {
        self.bytes
    }

    /// This point is `k·B` for its logarithm `k < ℓ`.
    pub(crate) fn establish_log(&self)
        ensures
            self.log() < ell(),
            encodes(self.encoding(), self.log()),
    {
        proof {
            use_type_invariant(self);
            lemma_point_log(self.bytes@);
        }
    }

    /// Whether two points are the same group element.
    pub fn equals(&self, other: &Point) -> (r: bool)
        ensures
            r == (self.log() == other.log()),
    {
        self.establish_log();
        other.establish_log();
        bytes_equal(&self.bytes, &other.bytes)
    }
}

/// A canonical encoding is `k·B` for the logarithm `k` it is given.
pub proof fn lemma_point_log(b: Seq<u8>)
    requires
        is_point(b),
    ensures
        point_log(b) < ell(),
        encodes(b, point_log(b)),
{
}

proof fn lemma_le_value_zeros(b: Seq<u8>)
    requires
        forall|i: int| 0 <= i < b.len() ==> b[i] == 0,
    ensures
        le_value(b) == 0,
    decreases b.len(),
{
    if b.len() > 0 {
        lemma_le_value_zeros(b.drop_first());
    }
}

fn bytes_equal(a: &[u8; 32], b: &[u8; 32]) -> (r: bool)
    ensures
        r == (a@ == b@),
{
    let mut i: usize = 0;
    while i < 32
        invariant
            i <= 32,
            a@.len() == 32,
            b@.len() == 32,
            forall|j: int| 0 <= j < i ==> a@[j] == b@[j],
        decreases 32 - i,
    {
        if a[i] != b[i] {
            assert(a@[i as int] != b@[i as int]);
            return false;
        }
        i += 1;
    }
    assert(a@ =~= b@);
    true
}

/// Relies on `Scalar::from_bytes_mod_order`: it reduces a 256-bit
/// little-endian integer modulo `ℓ`.
#[verifier::external_body]
fn reduce(bytes: [u8; 32]) -> (r: Scalar)
    ensures
        le_value(r.bytes@) == le_value(bytes@) % ell(),
{
    Scalar { bytes: curve25519_dalek::scalar::Scalar::from_bytes_mod_order(bytes).to_bytes() }
}

/// Relies on `Scalar::random` with the thread-local generator of `rand`: a
/// uniformly random scalar, drawn afresh on every call.
#[verifier::external_body]
pub(crate) fn random_scalar() -> (r: Scalar) {
    let s = curve25519_dalek::scalar::Scalar::random(&mut rand::thread_rng());
    Scalar { bytes: s.to_bytes() }
}

/// Relies on `Scalar::hash_from_bytes::<Sha512>`: the SHA-512 digest of the
/// input, reduced modulo `ℓ`.
#[verifier::external_body]
pub(crate) fn hash_to_scalar(input: &Vec<u8>) -> (r: Scalar)
    ensures
        r.encoding() == hash_to_scalar_of(input@),
{
    let s = curve25519_dalek::scalar::Scalar::hash_from_bytes::<sha2::Sha512>(input.as_slice());
    Scalar { bytes: s.to_bytes() }
}

/// Relies on scalar addition of `curve25519_dalek`: the sum modulo `ℓ`.
#[verifier::external_body]
pub(crate) fn scalar_add(a: &Scalar, b: &Scalar) -> (r: Scalar)
    ensures
        r@ == (a@ + b@) % ell(),
{
    let x = curve25519_dalek::scalar::Scalar::from_bytes_mod_order(a.bytes);
    let y = curve25519_dalek::scalar::Scalar::from_bytes_mod_order(b.bytes);
    Scalar { bytes: (x + y).to_bytes() }
}

/// Relies on scalar multiplication of `curve25519_dalek`: the product modulo `ℓ`.
#[verifier::external_body]
pub(crate) fn scalar_mul(a: &Scalar, b: &Scalar) -> (r: Scalar)
    ensures
        r@ == (a@ * b@) % ell(),
{
    let x = curve25519_dalek::scalar::Scalar::from_bytes_mod_order(a.bytes);
    let y = curve25519_dalek::scalar::Scalar::from_bytes_mod_order(b.bytes);
    Scalar { bytes: (x * y).to_bytes() }
}

/// Relies on `RistrettoPoint::mul_base`: the point `k·B`, whose logarithm is
/// `k` since `B` generates the group of prime order `ℓ`.
#[verifier::external_body]
pub(crate) fn base_mul(k: &Scalar) -> (r: Point)
    ensures
        r.encoding() == base_mul_of(k@),
        point_log(r.encoding()) == k@,
{
    let s = curve25519_dalek::scalar::Scalar::from_bytes_mod_order(k.bytes);
    let p = curve25519_dalek::ristretto::RistrettoPoint::mul_base(&s);
    Point { bytes: p.compress().to_bytes() }
}

/// Relies on point addition of `curve25519_dalek`: adding `i·B` and `j·B`
/// gives `(i + j)·B`. Decompression cannot fail: every `Point` holds a
/// canonical encoding (its type invariant).
#[verifier::external_body]
pub(crate) fn point_add(a: &Point, b: &Point) -> (r: Point)
    ensures
        r.encoding() == base_mul_of((a.log() + b.log()) % ell()),
        point_log(r.encoding()) == (a.log() + b.log()) % ell(),
{
    let p = curve25519_dalek::ristretto::CompressedRistretto(a.bytes).decompress().unwrap();
    let q = curve25519_dalek::ristretto::CompressedRistretto(b.bytes).decompress().unwrap();
    Point { bytes: (p + q).compress().to_bytes() }
}

/// Relies on scalar multiplication of points in `curve25519_dalek`:
/// multiplying `j·B` by `k` gives `(k·j)·B`. Decompression cannot fail, as
/// for `point_add`.
#[verifier::external_body]
pub(crate) fn point_mul(k: &Scalar, p: &Point) -> (r: Point)
    ensures
        r.encoding() == base_mul_of((k@ * p.log()) % ell()),
        point_log(r.encoding()) == (k@ * p.log()) % ell(),
{
    let s = curve25519_dalek::scalar::Scalar::from_bytes_mod_order(k.bytes);
    let q = curve25519_dalek::ristretto::CompressedRistretto(p.bytes).decompress().unwrap();
    Point { bytes: (q * s).compress().to_bytes() }
}

/// Relies on `CompressedRistretto::decompress`: it succeeds exactly on the
/// canonical encodings of group elements.
#[verifier::external_body]
fn is_canonical_point(bytes: &[u8; 32]) -> (r: bool)
    ensures
        r == is_point(bytes@),
{
    curve25519_dalek::ristretto::CompressedRistretto(*bytes).decompress().is_some()
}

} // verus!
