//! Scalar/point algebra adapter over the Ristretto255 prime-order group.
//!
//! Everything above this module is built only on the operations exported
//! here: scalar sampling and arithmetic, point addition/subtraction, scalar
//! multiplication, and a hash-to-group derivation for the second Pedersen
//! generator.
//!
//! A group element is held as its canonical 32-byte compressed encoding and
//! is modelled in specifications by its discrete logarithm with respect to
//! the conventional base point `G`: the group is cyclic of prime order `l`
//! generated by `G`, so every element is `d*G` for exactly one `d < l`, and
//! canonical encodings are in bijection with elements.  A scalar is held as
//! its canonical little-endian encoding and modelled by its value, an
//! integer below `l`.

use blake2::Digest;
use vstd::prelude::*;
use vstd::arithmetic::div_mod::lemma_small_mod;

verus! {

/// The order `l` of the Ristretto255 group and of its scalar field:
/// `2^252 + 27742317777372353535851937790883648493`.
pub open spec fn group_order() -> nat {
    0x1000000000000000000000000000000014def9dea2f79cd65812631a5cf5d3ednat
}

/// The value of a byte sequence read as a little-endian base-256 integer.
pub open spec fn le_val(s: Seq<u8>) -> nat
    decreases s.len(),
{
    if s.len() == 0 {
        0
    } else {
        s[0] as nat + 256 * le_val(s.subrange(1, s.len() as int))
    }
}

/// Whether 32 bytes are the canonical encoding of a group element; names the
/// domain on which `CompressedRistretto::decompress` succeeds.
pub uninterp spec fn is_group_enc(enc: Seq<u8>) -> bool;

/// The discrete logarithm, with respect to the conventional base point, of
/// the element a canonical encoding denotes; names the element that
/// `CompressedRistretto::decompress` yields, which depends on the encoding
/// alone.
pub uninterp spec fn enc_val(enc: Seq<u8>) -> nat;

/// The canonical encoding of `d*G`; names the result of compressing the
/// `d`-th scalar multiple of the base point, which depends on `d` alone.
pub uninterp spec fn enc_of(d: nat) -> Seq<u8>;

/// The discrete logarithm of the element obtained by hashing a domain string
/// to the group (a 64-byte Sha-512 digest fed through the uniform-bytes map);
/// names the result of that derivation, which depends on the string alone.
pub uninterp spec fn hash_to_group_val(domain: Seq<u8>) -> nat;

/// The 64-byte Blake2b-512 digest of a message; names the result of the
/// hash, which depends on the message alone.
pub uninterp spec fn blake2b_of(data: Seq<u8>) -> Seq<u8>;

/// The domain-separation string from which the commitment scheme's blinding
/// generator is derived.
pub open spec fn h_domain() -> Seq<u8> {
    seq![
        0x53u8, 0x61, 0x66, 0x65, 0x4d, 0x61, 0x73, 0x6b, 0x2d, 0x50, 0x65, 0x64, 0x65, 0x72,
        0x73, 0x65, 0x6e, 0x2d, 0x48, 0x2d, 0x47, 0x65, 0x6e, 0x65, 0x72, 0x61, 0x74, 0x6f,
        0x72, 0x2d, 0x76, 0x31,
    ]
}

/// The scalar obtained by hashing bytes with Blake2b-512 and reducing the
/// 512-bit little-endian digest modulo the group order (wide reduction, so
/// the result is unbiased).
pub open spec fn hts_val(data: Seq<u8>) -> nat {
    le_val(blake2b_of(data)) % group_order()
}

/// An element of the scalar field modulo the group order, held as its
/// canonical (fully reduced) 32-byte little-endian encoding.
#[derive(Clone, Copy, Debug, PartialEq, Eq)]
pub struct Scalar {
    bytes: [u8; 32],
}

/// An element of the Ristretto255 group, held as its canonical 32-byte
/// compressed encoding.
#[derive(Clone, Copy, Debug, PartialEq, Eq)]
pub struct GroupPoint {
    bytes: [u8; 32],
}

impl Scalar {
    /// The canonical encoding this scalar holds.
    pub closed spec fn enc(self) -> Seq<u8> {
        self.bytes@
    }

    /// The integer value of this scalar.
    pub open spec fn val(self) -> nat {
        le_val(self.enc())
    }

    /// A scalar is well formed when its encoding is fully reduced.
    pub open spec fn wf(self) -> bool {
        self.val() < group_order()
    }

    /// The 32-byte little-endian encoding of this scalar.
    pub fn to_bytes(&self) -> (r: [u8; 32])
        ensures
            r@ == self.enc(),
    {
        self.bytes
    }

    /// Relies on `curve25519_dalek::scalar::Scalar::from_bytes_mod_order` and
    /// `Scalar::to_bytes`: reduce a 256-bit little-endian integer modulo the
    /// group order and return its canonical encoding.
    #[verifier::external_body]
    pub fn from_bytes_mod_order(bytes: [u8; 32]) -> (r: Scalar)
        ensures
            r.wf(),
            r.val() == le_val(bytes@) % group_order(),
    {
        let s = curve25519_dalek::scalar::Scalar::from_bytes_mod_order(bytes);
        Scalar { bytes: s.to_bytes() }
    }

    /// Relies on `curve25519_dalek::scalar::Scalar::from(u64)`: embed an
    /// unsigned 64-bit integer, which is already below the group order, as a
    /// canonically encoded scalar.
    #[verifier::external_body]
    pub fn from_u64(value: u64) -> (r: Scalar)
        ensures
            r.wf(),
            r.val() == value as nat,
    {
        let s = curve25519_dalek::scalar::Scalar::from(value);
        Scalar { bytes: s.to_bytes() }
    }

    /// Relies on `curve25519_dalek::scalar::Scalar`'s `Add`: the sum of two
    /// reduced scalars, reduced modulo the group order.
    #[verifier::external_body]
    pub fn add(&self, rhs: &Scalar) -> (r: Scalar)
        requires
            self.wf(),
            rhs.wf(),
        ensures
            r.wf(),
            r.val() == (self.val() + rhs.val()) % group_order(),
    {
        let a = curve25519_dalek::scalar::Scalar::from_bytes_mod_order(self.bytes);
        let b = curve25519_dalek::scalar::Scalar::from_bytes_mod_order(rhs.bytes);
        Scalar { bytes: (&a + &b).to_bytes() }
    }

    /// Relies on `curve25519_dalek::scalar::Scalar`'s `Sub`: the difference
    /// of two reduced scalars, reduced modulo the group order.
    #[verifier::external_body]
    pub fn sub(&self, rhs: &Scalar) -> (r: Scalar)
        requires
            self.wf(),
            rhs.wf(),
        ensures
            r.wf(),
            r.val() == ((self.val() + group_order() - rhs.val()) as nat) % group_order(),
    {
        let a = curve25519_dalek::scalar::Scalar::from_bytes_mod_order(self.bytes);
        let b = curve25519_dalek::scalar::Scalar::from_bytes_mod_order(rhs.bytes);
        Scalar { bytes: (&a - &b).to_bytes() }
    }
}

/// Relies on `rand::fill` and
/// `curve25519_dalek::scalar::Scalar::from_bytes_mod_order`: sample 32 bytes
/// from a cryptographically secure generator and reduce them modulo the group
/// order.  Nothing is promised of the value beyond well-formedness: the
/// result is random.
#[verifier::external_body]
pub fn random_scalar() -> (r: Scalar)
    ensures
        r.wf(),
{
    let mut bytes = [0u8; 32];
    rand::fill(&mut bytes[..]);
    let s = curve25519_dalek::scalar::Scalar::from_bytes_mod_order(bytes);
    Scalar { bytes: s.to_bytes() }
}

/// Relies on `blake2::Blake2b512` (through the `Digest` interface): the
/// 64-byte Blake2b-512 digest of the input.
#[verifier::external_body]
pub fn blake2b(data: &[u8]) -> (r: [u8; 64])
    ensures
        r@ == blake2b_of(data@),
{
    let mut hasher = blake2::Blake2b512::new();
    hasher.update(data);
    let digest = hasher.finalize();
    let mut out = [0u8; 64];
    out.copy_from_slice(&digest);
    out
}

/// Relies on `curve25519_dalek::scalar::Scalar::from_bytes_mod_order_wide`:
/// reduce a 512-bit little-endian integer modulo the group order.
#[verifier::external_body]
fn scalar_reduce_wide(bytes: &[u8; 64]) -> (r: Scalar)
    ensures
        r.wf(),
        r.val() == le_val(bytes@) % group_order(),
{
    let s = curve25519_dalek::scalar::Scalar::from_bytes_mod_order_wide(bytes);
    Scalar { bytes: s.to_bytes() }
}

/// Hash arbitrary bytes to a scalar: Blake2b-512 followed by wide reduction
/// modulo the group order.
pub fn hash_to_scalar(data: &[u8]) -> (r: Scalar)
    ensures
        r.wf(),
        r.val() == hts_val(data@),
{
    let digest = blake2b(data);
    scalar_reduce_wide(&digest)
}

impl GroupPoint {
    /// The canonical encoding this point holds.
    pub closed spec fn enc(self) -> Seq<u8> {
        self.bytes@
    }

    /// The discrete logarithm of this point with respect to the base point.
    pub open spec fn val(self) -> nat {
        enc_val(self.enc())
    }

    /// A point is well formed when it holds the canonical encoding of a
    /// group element, that is, the canonical encoding of `val()*G`.
    pub open spec fn wf(self) -> bool {
        &&& is_group_enc(self.enc())
        &&& self.val() < group_order()
        &&& self.enc() == enc_of(self.val())
    }

    /// The canonical 32-byte compressed encoding of this point.
    pub fn as_bytes(&self) -> (r: [u8; 32])
        ensures
            r@ == self.enc(),
    {
        self.bytes
    }
}

/// Relies on `curve25519_dalek::constants::RISTRETTO_BASEPOINT_POINT`: the
/// conventional base point `G`, whose discrete logarithm with respect to
/// itself is 1.
#[verifier::external_body]
pub fn basepoint() -> (r: GroupPoint)
    ensures
        r.wf(),
        enc_val(r.enc()) == 1,
        r.enc() == enc_of(1),
{
    let g = curve25519_dalek::constants::RISTRETTO_BASEPOINT_POINT;
    GroupPoint { bytes: g.compress().to_bytes() }
}

/// Relies on `RistrettoPoint`'s `Add` and on compression being canonical:
/// adding `a*G` and `b*G` yields `((a+b) mod l)*G`, since the group is
/// cyclic of order `l`.
#[verifier::external_body]
pub(crate) fn point_add(a: &GroupPoint, b: &GroupPoint) -> (r: GroupPoint)
    requires
        a.wf(),
        b.wf(),
    ensures
        r.wf(),
        r.val() == (a.val() + b.val()) % group_order(),
{
    let pa = curve25519_dalek::ristretto::CompressedRistretto(a.bytes).decompress().unwrap();
    let pb = curve25519_dalek::ristretto::CompressedRistretto(b.bytes).decompress().unwrap();
    GroupPoint { bytes: (&pa + &pb).compress().to_bytes() }
}

/// Relies on `RistrettoPoint`'s `Sub` and on compression being canonical:
/// subtracting `b*G` from `a*G` yields `((a-b) mod l)*G`.
#[verifier::external_body]
pub(crate) fn point_sub(a: &GroupPoint, b: &GroupPoint) -> (r: GroupPoint)
    requires
        a.wf(),
        b.wf(),
    ensures
        r.wf(),
        r.val() == ((a.val() + group_order() - b.val()) as nat) % group_order(),
{
    let pa = curve25519_dalek::ristretto::CompressedRistretto(a.bytes).decompress().unwrap();
    let pb = curve25519_dalek::ristretto::CompressedRistretto(b.bytes).decompress().unwrap();
    GroupPoint { bytes: (&pa - &pb).compress().to_bytes() }
}

/// Relies on `Mul<&RistrettoPoint> for &Scalar` and on compression being
/// canonical: multiplying `p*G` by the scalar `s` yields `((s*p) mod l)*G`.
#[verifier::external_body]
pub(crate) fn point_mul(s: &Scalar, p: &GroupPoint) -> (r: GroupPoint)
    requires
        s.wf(),
        p.wf(),
    ensures
        r.wf(),
        r.val() == (s.val() * p.val()) % group_order(),
{
    let sc = curve25519_dalek::scalar::Scalar::from_bytes_mod_order(s.to_bytes());
    let pt = curve25519_dalek::ristretto::CompressedRistretto(p.bytes).decompress().unwrap();
    GroupPoint { bytes: (&sc * &pt).compress().to_bytes() }
}

/// Relies on `CompressedRistretto::decompress`: it succeeds exactly on
/// canonical encodings, and a canonical encoding denotes the element it
/// decompresses to, so the accepted bytes are kept unchanged.
#[verifier::external_body]
pub fn point_decode(bytes: &[u8; 32]) -> (r: Option<GroupPoint>)
    ensures
        r is Some <==> is_group_enc(bytes@),
        r matches Some(p) ==> p.wf() && p.enc() == bytes@,
{
    match curve25519_dalek::ristretto::CompressedRistretto(*bytes).decompress() {
        Some(_) => Some(GroupPoint { bytes: *bytes }),
        None => None,
    }
}

/// Relies on `sha2::Sha512` and
/// `RistrettoPoint::from_uniform_bytes`: hash the fixed domain-separation
/// string to a group element ("nothing up my sleeve").  The derivation is
/// deterministic, so every caller obtains the identical generator; its
/// discrete logarithm is named but known to nobody.
#[verifier::external_body]
pub fn derive_blinding_generator() -> (r: GroupPoint)
    ensures
        r.wf(),
        enc_val(r.enc()) == hash_to_group_val(h_domain()),
{
    let mut hasher = sha2::Sha512::new();
    hasher.update(b"SafeMask-Pedersen-H-Generator-v1");
    let digest = hasher.finalize();
    let mut wide = [0u8; 64];
    wide.copy_from_slice(&digest);
    let p = curve25519_dalek::ristretto::RistrettoPoint::from_uniform_bytes(&wide);
    GroupPoint { bytes: p.compress().to_bytes() }
}

/// Multiply the base point by a scalar: the resulting point's discrete
/// logarithm is the scalar itself.
pub fn mul_base(s: &Scalar) -> (r: GroupPoint)
    requires
        s.wf(),
    ensures
        r.wf(),
        r.val() == s.val(),
{
    let g = basepoint();
    let r = point_mul(s, &g);
    proof {
        lemma_small_mod(s.val(), group_order());
    }
    r
}

/// Wire round trip: a well-formed point's encoding is a canonical group
/// encoding, so decoding it always succeeds; and any well-formed point that
/// holds the same encoding denotes the same group element, so what comes
/// back from decoding equals what was encoded.
pub proof fn lemma_codec_round_trip(p: GroupPoint, q: GroupPoint)
    requires
        p.wf(),
        q.wf(),
        q.enc() == p.enc(),
    ensures
        is_group_enc(p.enc()),
        q.val() == p.val(),
{
}

/// Compare two well-formed points for equality of the group elements they
/// denote.  Canonical encodings are unique, so this is a byte comparison.
pub(crate) fn point_eq(a: &GroupPoint, b: &GroupPoint) -> (r: bool)
    requires
        a.wf(),
        b.wf(),
    ensures
        r <==> a.val() == b.val(),
{
    let mut i: usize = 0;
    while i < 32
        invariant
            0 <= i <= 32,
            a.wf(),
            b.wf(),
            forall|j: int| 0 <= j < i ==> a.enc()[j] == b.enc()[j],
        decreases 32 - i,
    {
        if a.bytes[i] != b.bytes[i] {
            proof {
                if a.val() == b.val() {
                    assert(a.enc() == enc_of(a.val()));
                    assert(b.enc() == enc_of(b.val()));
                    assert(a.enc()[i as int] == b.enc()[i as int]);
                }
            }
            return false;
        }
        i += 1;
    }
    proof {
        assert(a.enc() =~= b.enc());
    }
    true
}

} // verus!
