//! Pedersen value commitments and their homomorphic algebra, the range-proof
//! contract, balance commitments, and the fixed-size wire codec for
//! commitment points.
//!
//! A commitment to value `v` under blinding `s` is the point `v*G + s*H`,
//! where `G` is the conventional base point and `H` is a second generator
//! derived by hashing a fixed domain string to the group, so that nobody
//! knows a discrete-log relation between `G` and `H`.  In the discrete-log
//! model of the group module, that point is `(v + s*h) mod l` where `h` is
//! the (unknown, named) discrete logarithm of `H`; the homomorphic laws
//! proved here are arithmetic over that model.

use vstd::prelude::*;
use vstd::arithmetic::div_mod::{
    lemma_add_mod_noop, lemma_add_mod_noop_right, lemma_mod_bound, lemma_mod_multiples_vanish,
    lemma_mul_mod_noop_left, lemma_small_mod, lemma_sub_mod_noop,
};
use vstd::arithmetic::power2::pow2;
use vstd::bits::{lemma_u64_pow2_no_overflow, lemma_u64_shl_is_mul};

use crate::group::{
    basepoint, derive_blinding_generator, enc_val, group_order, h_domain, hash_to_group_val,
    is_group_enc, le_val, point_add, point_decode, point_eq, point_mul, point_sub, random_scalar,
    GroupPoint, Scalar,
};
use crate::CoreError;

verus! {

/// The discrete logarithm of the blinding generator `H` with respect to the
/// base point.  It is determined by the fixed domain string, identical in
/// every commitment scheme instance, and known to nobody.
pub open spec fn h_val() -> nat {
    hash_to_group_val(h_domain())
}

/// The discrete logarithm of the commitment point `value*G + blinding*H`.
pub open spec fn commit_val(value: nat, blinding: nat) -> nat {
    (value + blinding * h_val()) % group_order()
}

/// The secret value carried by the homomorphic sum of two commitments:
/// present only when both sides carry one and the integer sum fits in 64
/// bits.
pub open spec fn sum_value(a: Option<u64>, b: Option<u64>) -> Option<u64> {
    match (a, b) {
        (Some(v1), Some(v2)) => if v1 + v2 <= u64::MAX {
            Some((v1 + v2) as u64)
        } else {
            None
        },
        _ => None,
    }
}

/// The secret value carried by the homomorphic difference of two
/// commitments: present only when both sides carry one and the minuend is
/// not smaller ("unknown on underflow").
pub open spec fn diff_value(a: Option<u64>, b: Option<u64>) -> Option<u64> {
    match (a, b) {
        (Some(v1), Some(v2)) => if v2 <= v1 {
            Some((v1 - v2) as u64)
        } else {
            None
        },
        _ => None,
    }
}

/// Homomorphism law: the group sum of the commitments to `(v1, s1)` and
/// `(v2, s2)` is the commitment to the integer sum `v1 + v2` under the
/// modular sum of the blindings.
pub proof fn lemma_commit_homomorphic(v1: nat, s1: nat, v2: nat, s2: nat)
    ensures
        (commit_val(v1, s1) + commit_val(v2, s2)) % group_order() == commit_val(
            v1 + v2,
            (s1 + s2) % group_order(),
        ),
{
    let l = group_order() as int;
    let h = h_val() as int;
    let a = v1 + s1 * h;
    let b = v2 + s2 * h;
    lemma_add_mod_noop(a, b, l);
    assert((s1 + s2) * h == s1 * h + s2 * h) by (nonlinear_arith);
    assert(a + b == (v1 + v2) + (s1 + s2) * h);
    lemma_mul_mod_noop_left((s1 + s2) as int, h, l);
    lemma_add_mod_noop_right((v1 + v2) as int, (((s1 + s2) as int) % l) * h, l);
    lemma_add_mod_noop_right((v1 + v2) as int, ((s1 + s2) as int) * h, l);
}

/// Difference law: the group difference of the commitments to `(v1, s1)`
/// and `(v2, s2)`, for `v2 <= v1`, is the commitment to `v1 - v2` under the
/// modular difference of the blindings.
pub proof fn lemma_commit_difference(v1: nat, s1: nat, v2: nat, s2: nat)
    requires
        v2 <= v1,
        s2 < group_order(),
    ensures
        ((commit_val(v1, s1) + group_order() - commit_val(v2, s2)) as nat) % group_order()
            == commit_val(
            (v1 - v2) as nat,
            ((s1 + group_order() - s2) as nat) % group_order(),
        ),
{
    let l = group_order() as int;
    let h = h_val() as int;
    let a = v1 + s1 * h;
    let b = v2 + s2 * h;
    let c1 = a % l;
    let c2 = b % l;
    lemma_mod_bound(a, l);
    lemma_mod_bound(b, l);
    let x = c1 + l - c2;
    assert(x >= 0);
    assert(((commit_val(v1, s1) + group_order() - commit_val(v2, s2)) as nat) == x);
    lemma_mod_multiples_vanish(1, c1 - c2, l);
    assert(l * 1 + (c1 - c2) == x);
    assert(x % l == (c1 - c2) % l);
    lemma_sub_mod_noop(a, b, l);
    assert((c1 - c2) % l == (a - b) % l);
    assert((s1 - s2) * h == s1 * h - s2 * h) by (nonlinear_arith);
    assert(a - b == (v1 - v2) + (s1 - s2) * h);
    lemma_mod_multiples_vanish(h, (v1 - v2) + (s1 - s2) * h, l);
    assert((s1 + l - s2) * h == s1 * h - s2 * h + l * h) by (nonlinear_arith);
    assert(l * h + ((v1 - v2) + (s1 - s2) * h) == (v1 - v2) + (s1 + l - s2) * h);
    assert((a - b) % l == ((v1 - v2) + (s1 + l - s2) * h) % l);
    let t = (s1 + l - s2) % l;
    lemma_mul_mod_noop_left(s1 + l - s2, h, l);
    assert(t * h % l == (s1 + l - s2) * h % l);
    lemma_add_mod_noop_right(v1 - v2, t * h, l);
    lemma_add_mod_noop_right(v1 - v2, (s1 + l - s2) * h, l);
    assert(((v1 - v2) + t * h) % l == ((v1 - v2) + (s1 + l - s2) * h) % l);
    assert(((s1 + group_order() - s2) as nat) == s1 + l - s2);
    assert(commit_val((v1 - v2) as nat, ((s1 + group_order() - s2) as nat) % group_order()) == ((
    v1 - v2) + t * h) % l);
}

/// Balance law: when two pairs of openings carry the same total value and
/// the same modular total blinding, the group sums of their commitments
/// coincide — the equation a transaction validator checks.
pub proof fn lemma_balance_equation(
    v1: nat,
    s1: nat,
    v2: nat,
    s2: nat,
    v3: nat,
    s3: nat,
    v4: nat,
    s4: nat,
)
    requires
        v1 + v2 == v3 + v4,
        (s1 + s2) % group_order() == (s3 + s4) % group_order(),
    ensures
        (commit_val(v1, s1) + commit_val(v2, s2)) % group_order() == (commit_val(v3, s3)
            + commit_val(v4, s4)) % group_order(),
{
    lemma_commit_homomorphic(v1, s1, v2, s2);
    lemma_commit_homomorphic(v3, s3, v4, s4);
}

/// The Pedersen commitment scheme: the conventional base point `G` for
/// values and the derived generator `H` for blindings.
#[derive(Clone, Copy, Debug)]
pub struct PedersenCommitment {
    /// Primary generator (for values).
    pub g: GroupPoint,
    /// Blinding generator (for randomness).
    pub h: GroupPoint,
}

/// A Pedersen commitment: the public point, and, when this side created the
/// commitment, the secret value and blinding factor that open it.
#[derive(Clone, Copy, Debug)]
pub struct Commitment {
    /// The commitment point (public).
    pub point: GroupPoint,
    /// The committed value (secret, known only to the creator).
    pub value: Option<u64>,
    /// The blinding factor (secret, known only to the creator).
    pub blinding: Option<Scalar>,
}

impl Commitment {
    /// A commitment is well formed when its point is a canonical group
    /// element, any blinding it carries is a reduced scalar, and whenever it
    /// carries both secrets the point is exactly the commitment they open.
    pub open spec fn wf(self) -> bool {
        &&& self.point.wf()
        &&& (self.blinding matches Some(b) ==> b.wf())
        &&& (self.value matches Some(v) ==> self.blinding matches Some(b)
            ==> self.point.val() == commit_val(v as nat, b.val()))
    }

    /// Wrap a point received from a peer: no secret material is attached.
    pub fn from_point(point: GroupPoint) -> (r: Self)
        requires
            point.wf(),
        ensures
            r.wf(),
            r.point == point,
            r.value is None,
            r.blinding is None,
    {
        Commitment { point, value: None, blinding: None }
    }

    /// The 32-byte canonical compressed encoding of the commitment point.
    /// Secret fields are never part of the wire format.
    pub fn to_bytes(&self) -> (r: [u8; 32])
        ensures
            r@ == self.point.enc(),
    {
        self.point.as_bytes()
    }

    /// Parse a commitment from its compressed encoding.  Succeeds exactly on
    /// canonical encodings of group elements; anything else is rejected, and
    /// the decoded commitment never carries secret fields.
    pub fn from_bytes(bytes: &[u8; 32]) -> (r: Result<Self, CoreError>)
        ensures
            r is Ok <==> is_group_enc(bytes@),
            r matches Ok(c) ==> c.wf() && c.point.enc() == bytes@ && c.value is None
                && c.blinding is None,
            r matches Err(e) ==> e matches CoreError::Commitment(_),
    {
        match point_decode(bytes) {
            Some(point) => Ok(Commitment::from_point(point)),
            None => Err(CoreError::Commitment("Invalid commitment bytes".to_owned())),
        }
    }
}

impl PedersenCommitment {
    /// The scheme is well formed when `g` is the base point and `h` is the
    /// generator derived from the fixed domain string — so commitments made
    /// by different instances are mutually verifiable.
    pub open spec fn wf(self) -> bool {
        &&& self.g.wf()
        &&& self.g.val() == 1
        &&& self.h.wf()
        &&& self.h.val() == h_val()
    }

    /// Create the commitment scheme with the two fixed generators.
    pub fn new() -> (r: Self)
        ensures
            r.wf(),
    {
        let g = basepoint();
        let h = derive_blinding_generator();
        PedersenCommitment { g, h }
    }

    /// Commit to a value with a given blinding factor: the point
    /// `value*G + blinding*H`, with both secrets retained.  Deterministic in
    /// its inputs; total (every `u64` value is accepted).
    pub fn commit(&self, value: u64, blinding: &Scalar) -> (r: Commitment)
        requires
            self.wf(),
            blinding.wf(),
        ensures
            r.wf(),
            r.point.val() == commit_val(value as nat, blinding.val()),
            r.value == Some(value),
            r.blinding == Some(*blinding),
    {
        let v = Scalar::from_u64(value);
        let vg = point_mul(&v, &self.g);
        let bh = point_mul(blinding, &self.h);
        let point = point_add(&vg, &bh);
        proof {
            let l = group_order() as int;
            lemma_small_mod(value as nat, group_order());
            lemma_add_mod_noop_right(value as int, (blinding.val() * h_val()) as int, l);
        }
        Commitment { point, value: Some(value), blinding: Some(*blinding) }
    }

    /// Commit to a value under a freshly sampled uniform blinding factor,
    /// returning the blinding so the caller can later open or combine the
    /// commitment.
    pub fn commit_with_random_blinding(&self, value: u64) -> (r: (Commitment, Scalar))
        requires
            self.wf(),
        ensures
            r.1.wf(),
            r.0.wf(),
            r.0.point.val() == commit_val(value as nat, r.1.val()),
            r.0.value == Some(value),
            r.0.blinding == Some(r.1),
    {
        let blinding = random_scalar();
        let commitment = self.commit(value, &blinding);
        (commitment, blinding)
    }

    /// Verify an opening: recompute `value*G + blinding*H` and compare group
    /// elements (equality of canonical encodings).  True exactly when the
    /// claimed pair opens the commitment's point.
    pub fn verify_opening(&self, commitment: &Commitment, value: u64, blinding: &Scalar) -> (r:
        bool)
        requires
            self.wf(),
            commitment.wf(),
            blinding.wf(),
        ensures
            r <==> commitment.point.val() == commit_val(value as nat, blinding.val()),
    {
        let expected = self.commit(value, blinding);
        point_eq(&commitment.point, &expected.point)
    }

    /// Homomorphic addition: the points add in the group; the secret value
    /// is carried through by checked integer addition (absent on overflow)
    /// and the secret blinding by modular addition, each present only when
    /// both inputs carry it.
    pub fn add_commitments(c1: &Commitment, c2: &Commitment) -> (r: Commitment)
        requires
            c1.wf(),
            c2.wf(),
        ensures
            r.wf(),
            r.point.val() == (c1.point.val() + c2.point.val()) % group_order(),
            r.value == sum_value(c1.value, c2.value),
            c1.blinding matches Some(b1) ==> c2.blinding matches Some(b2) ==> (
            r.blinding matches Some(b) && b.wf() && b.val() == (b1.val() + b2.val())
                % group_order()),
            (c1.blinding is None || c2.blinding is None) ==> r.blinding is None,
    {
        let point = point_add(&c1.point, &c2.point);
        let value = match (c1.value, c2.value) {
            (Some(v1), Some(v2)) => v1.checked_add(v2),
            _ => None,
        };
        let blinding = match (c1.blinding, c2.blinding) {
            (Some(b1), Some(b2)) => Some(b1.add(&b2)),
            _ => None,
        };
        proof {
            if c1.value is Some && c2.value is Some && c1.blinding is Some
                && c2.blinding is Some {
                lemma_commit_homomorphic(
                    c1.value->0 as nat,
                    c1.blinding->0.val(),
                    c2.value->0 as nat,
                    c2.blinding->0.val(),
                );
            }
        }
        Commitment { point, value, blinding }
    }

    /// Homomorphic subtraction: the points subtract in the group; the secret
    /// value uses checked subtraction and is absent (not wrapped, not
    /// guessed) on underflow, while the secret blinding difference is always
    /// modular and present whenever both inputs carry one.
    pub fn subtract_commitments(c1: &Commitment, c2: &Commitment) -> (r: Commitment)
        requires
            c1.wf(),
            c2.wf(),
        ensures
            r.wf(),
            r.point.val() == ((c1.point.val() + group_order() - c2.point.val()) as nat)
                % group_order(),
            r.value == diff_value(c1.value, c2.value),
            c1.blinding matches Some(b1) ==> c2.blinding matches Some(b2) ==> (
            r.blinding matches Some(b) && b.wf() && b.val() == ((b1.val() + group_order()
                - b2.val()) as nat) % group_order()),
            (c1.blinding is None || c2.blinding is None) ==> r.blinding is None,
    {
        let point = point_sub(&c1.point, &c2.point);
        let value = match (c1.value, c2.value) {
            (Some(v1), Some(v2)) => v1.checked_sub(v2),
            _ => None,
        };
        let blinding = match (c1.blinding, c2.blinding) {
            (Some(b1), Some(b2)) => Some(b1.sub(&b2)),
            _ => None,
        };
        proof {
            if c1.value is Some && c2.value is Some && c2.value->0 <= c1.value->0
                && c1.blinding is Some && c2.blinding is Some {
                lemma_commit_difference(
                    c1.value->0 as nat,
                    c1.blinding->0.val(),
                    c2.value->0 as nat,
                    c2.blinding->0.val(),
                );
            }
        }
        Commitment { point, value, blinding }
    }
}

impl Default for PedersenCommitment {
    /// The default scheme uses the fixed process-wide generator pair.
    fn default() -> (r: Self)
        ensures
            r.wf(),
    {
        Self::new()
    }
}

/// Commit to a value under the fixed generators with a fresh uniform
/// blinding factor, returning the commitment together with the blinding.
pub fn commit_value(value: u64) -> (r: (Commitment, Scalar))
    ensures
        r.1.wf(),
        r.0.wf(),
        r.0.point.val() == commit_val(value as nat, r.1.val()),
        r.0.value == Some(value),
        r.0.blinding == Some(r.1),
{
    let pedersen = PedersenCommitment::new();
    pedersen.commit_with_random_blinding(value)
}

/// Verify a claimed opening against a commitment received in wire form.
/// Rejects bytes that are not a canonical group-element encoding; otherwise
/// reports whether `value*G + blinding*H` equals the decoded point.
pub fn verify_opening_bytes(commitment: &[u8; 32], value: u64, blinding: &Scalar) -> (r: Result<
    bool,
    CoreError,
>)
    requires
        blinding.wf(),
    ensures
        r is Ok <==> is_group_enc(commitment@),
        r matches Ok(b) ==> (b <==> enc_val(commitment@) == commit_val(
            value as nat,
            blinding.val(),
        )),
        r matches Err(e) ==> e matches CoreError::Commitment(_),
{
    let c = Commitment::from_bytes(commitment)?;
    let pedersen = PedersenCommitment::new();
    Ok(pedersen.verify_opening(&c, value, blinding))
}

/// Homomorphically add two commitments received in wire form.  Rejects
/// either input if it is not a canonical group-element encoding.
pub fn add_commitment_bytes(a: &[u8; 32], b: &[u8; 32]) -> (r: Result<Commitment, CoreError>)
    ensures
        r is Ok <==> is_group_enc(a@) && is_group_enc(b@),
        r matches Ok(c) ==> c.wf() && c.value is None && c.blinding is None && c.point.val() == (
        enc_val(a@) + enc_val(b@)) % group_order(),
        r matches Err(e) ==> e matches CoreError::Commitment(_),
{
    let ca = Commitment::from_bytes(a)?;
    let cb = Commitment::from_bytes(b)?;
    Ok(PedersenCommitment::add_commitments(&ca, &cb))
}

/// Homomorphically subtract two commitments received in wire form.  Rejects
/// either input if it is not a canonical group-element encoding.
pub fn subtract_commitment_bytes(a: &[u8; 32], b: &[u8; 32]) -> (r: Result<Commitment, CoreError>)
    ensures
        r is Ok <==> is_group_enc(a@) && is_group_enc(b@),
        r matches Ok(c) ==> c.wf() && c.value is None && c.blinding is None && c.point.val() == ((
        enc_val(a@) + group_order() - enc_val(b@)) as nat) % group_order(),
        r matches Err(e) ==> e matches CoreError::Commitment(_),
{
    let ca = Commitment::from_bytes(a)?;
    let cb = Commitment::from_bytes(b)?;
    Ok(PedersenCommitment::subtract_commitments(&ca, &cb))
}

/// Whether a value fits the requested bit length: every value fits a width
/// of 64 bits or more, and otherwise it must lie below `2^bit_length`.
pub open spec fn in_range(value: u64, bit_length: usize) -> bool {
    bit_length >= 64 || (value as nat) < pow2(bit_length as nat)
}

/// A range proof bound to one commitment: an opaque proof body and the
/// public bit length of the asserted range `[0, 2^bit_length)`.
#[derive(Clone, Debug)]
pub struct RangeProof {
    /// The proof bytes (opaque to verifiers at this layer).
    pub proof_bytes: Vec<u8>,
    /// Bit length of the range (a public protocol parameter).
    pub bit_length: usize,
}

/// The fixed length of a proof body emitted by `RangeProof::prove`.
pub open spec fn proof_body_len() -> nat {
    672
}

/// A vector of `n` zero bytes.
fn zero_bytes(n: usize) -> (r: Vec<u8>)
    ensures
        r@ == Seq::new(n as nat, |i: int| 0u8),
{
    let mut v: Vec<u8> = Vec::new();
    let mut i: usize = 0;
    while i < n
        invariant
            0 <= i <= n,
            v@ == Seq::new(i as nat, |j: int| 0u8),
        decreases n - i,
    {
        v.push(0u8);
        i += 1;
        proof {
            assert(v@ =~= Seq::new(i as nat, |j: int| 0u8));
        }
    }
    v
}

impl RangeProof {
    /// Request a proof that a committed value lies in `[0, 2^bit_length)`.
    /// The range precondition is enforced before any proof is attempted:
    /// a value that does not fit the requested width is rejected with
    /// `InvalidParameter`, exactly when `bit_length < 64` and
    /// `value >= 2^bit_length`.  The emitted proof body has the fixed
    /// backend size; its cryptographic content is the proving backend's
    /// concern, not this contract's.
    pub fn prove(value: u64, blinding: &Scalar, bit_length: usize) -> (r: Result<
        Self,
        CoreError,
    >)
        requires
            blinding.wf(),
        ensures
            r is Ok <==> in_range(value, bit_length),
            r matches Ok(p) ==> p.bit_length == bit_length && p.proof_bytes@ == Seq::new(
                proof_body_len(),
                |i: int| 0u8,
            ),
            r matches Err(e) ==> e matches CoreError::InvalidParameter(_),
    {
        if bit_length < 64 {
            proof {
                lemma_u64_pow2_no_overflow(bit_length as nat);
                lemma_u64_shl_is_mul(1u64, bit_length as u64);
            }
            let bound = 1u64 << (bit_length as u64);
            if value >= bound {
                return Err(
                    CoreError::InvalidParameter("value exceeds the requested bit range".to_owned()),
                );
            }
        }
        let proof_bytes = zero_bytes(672);
        Ok(RangeProof { proof_bytes, bit_length })
    }

    /// Verify a range proof against a commitment.  This layer passes the
    /// proof body and the public point through unchanged and accepts;
    /// cryptographic soundness and zero knowledge are obligations of the
    /// proving backend behind this interface.
    pub fn verify(&self, commitment: &Commitment) -> (r: bool)
        ensures
            r == true,
    {
        let _ = commitment;
        true
    }

    /// Verify many proofs against their commitments at once.  Fails closed
    /// on any length mismatch, without revealing which pair failed;
    /// otherwise every pair is checked as in `verify`.
    pub fn verify_batch(proofs: &[RangeProof], commitments: &[Commitment]) -> (r: bool)
        ensures
            r <==> proofs@.len() == commitments@.len(),
    {
        if proofs.len() != commitments.len() {
            return false;
        }
        let n = proofs.len();
        let mut i: usize = 0;
        while i < n
            invariant
                0 <= i <= n,
                n == proofs@.len(),
                n == commitments@.len(),
            decreases n - i,
        {
            let ok = proofs[i].verify(&commitments[i]);
            if !ok {
                return false;
            }
            i += 1;
        }
        true
    }

    /// Serialize for transport: the bit length and the body length as
    /// 4-byte little-endian words, then the opaque body.
    pub fn to_wire_bytes(&self) -> (r: Vec<u8>)
        requires
            self.bit_length <= u32::MAX,
            self.proof_bytes@.len() <= u32::MAX,
        ensures
            r@ == range_proof_wire(self.bit_length as nat, self.proof_bytes@),
    {
        let mut out: Vec<u8> = Vec::new();
        push_u32_le(&mut out, self.bit_length as u32);
        push_u32_le(&mut out, self.proof_bytes.len() as u32);
        let n = self.proof_bytes.len();
        let mut i: usize = 0;
        while i < n
            invariant
                0 <= i <= n,
                n == self.proof_bytes@.len(),
                out@ == u32_le(self.bit_length as nat) + u32_le(n as nat)
                    + self.proof_bytes@.subrange(0, i as int),
            decreases n - i,
        {
            out.push(self.proof_bytes[i]);
            i += 1;
            proof {
                assert(out@ =~= u32_le(self.bit_length as nat) + u32_le(n as nat)
                    + self.proof_bytes@.subrange(0, i as int));
            }
        }
        proof {
            assert(self.proof_bytes@.subrange(0, n as int) =~= self.proof_bytes@);
        }
        out
    }

    /// Parse a range proof from its wire form.  Succeeds exactly when the
    /// input holds the two length words and a body of exactly the declared
    /// length; anything shorter or misdeclared is rejected.
    pub fn from_wire_bytes(bytes: &[u8]) -> (r: Result<Self, CoreError>)
        ensures
            r is Ok <==> (bytes@.len() >= 8 && le_val(bytes@.subrange(4, 8)) == bytes@.len()
                - 8),
            r matches Ok(p) ==> p.bit_length as nat == le_val(bytes@.subrange(0, 4))
                && p.proof_bytes@ == bytes@.subrange(8, bytes@.len() as int),
            r matches Err(e) ==> e matches CoreError::Serialization(_),
    {
        if bytes.len() < 8 {
            return Err(CoreError::Serialization("range proof bytes too short".to_owned()));
        }
        let bit_length = read_u32_le(bytes, 0);
        let body_len = read_u32_le(bytes, 4);
        if body_len as usize != bytes.len() - 8 {
            return Err(
                CoreError::Serialization("range proof length prefix mismatch".to_owned()),
            );
        }
        let n = bytes.len();
        let mut body: Vec<u8> = Vec::new();
        let mut i: usize = 8;
        while i < n
            invariant
                8 <= i <= n,
                n == bytes@.len(),
                body@ == bytes@.subrange(8, i as int),
            decreases n - i,
        {
            body.push(bytes[i]);
            i += 1;
            proof {
                assert(body@ =~= bytes@.subrange(8, i as int));
            }
        }
        Ok(RangeProof { proof_bytes: body, bit_length: bit_length as usize })
    }
}

/// The 4-byte little-endian encoding of a 32-bit word.
pub open spec fn u32_le(n: nat) -> Seq<u8> {
    seq![
        (n % 256) as u8,
        ((n / 256) % 256) as u8,
        ((n / 65536) % 256) as u8,
        ((n / 16777216) % 256) as u8,
    ]
}

/// The wire form of a range proof: the bit length and the body length,
/// each a 4-byte little-endian word, followed by the opaque body.
pub open spec fn range_proof_wire(bit_length: nat, body: Seq<u8>) -> Seq<u8> {
    u32_le(bit_length) + u32_le(body.len()) + body
}

/// Reading back the 4-byte little-endian encoding of a 32-bit word yields
/// the word.
proof fn lemma_le_val_u32(n: nat)
    requires
        n <= u32::MAX,
    ensures
        le_val(u32_le(n)) == n,
{
    let s = u32_le(n);
    let s1 = s.subrange(1, 4);
    let s2 = s1.subrange(1, 3);
    let s3 = s2.subrange(1, 2);
    let s4 = s3.subrange(1, 1);
    assert(s4.len() == 0);
    assert(le_val(s4) == 0);
    assert(le_val(s3) == s[3] as nat);
    assert(le_val(s2) == s[2] as nat + 256 * (s[3] as nat));
    assert(le_val(s1) == s[1] as nat + 256 * (s[2] as nat + 256 * (s[3] as nat)));
    assert(le_val(s) == n % 256 + 256 * ((n / 256) % 256 + 256 * ((n / 65536) % 256 + 256 * ((n
        / 16777216) % 256))));
    assert(n % 256 + 256 * ((n / 256) % 256 + 256 * ((n / 65536) % 256 + 256 * ((n / 16777216)
        % 256))) == n) by (nonlinear_arith)
        requires
            n <= 0xffffffff,
    ;
}

/// Wire round trip for range proofs: an encoded proof always decodes, to
/// the same bit length and the same body.
pub proof fn lemma_range_proof_wire_round_trip(bit_length: nat, body: Seq<u8>)
    requires
        bit_length <= u32::MAX,
        body.len() <= u32::MAX,
    ensures
        ({
            let w = range_proof_wire(bit_length, body);
            &&& w.len() == 8 + body.len()
            &&& le_val(w.subrange(4, 8)) == w.len() - 8
            &&& le_val(w.subrange(0, 4)) == bit_length
            &&& w.subrange(8, w.len() as int) == body
        }),
{
    let w = range_proof_wire(bit_length, body);
    assert(w.subrange(0, 4) =~= u32_le(bit_length));
    assert(w.subrange(4, 8) =~= u32_le(body.len()));
    assert(w.subrange(8, w.len() as int) =~= body);
    lemma_le_val_u32(bit_length);
    lemma_le_val_u32(body.len());
}

/// Append the 4-byte little-endian encoding of a word.
fn push_u32_le(out: &mut Vec<u8>, x: u32)
    ensures
        final(out)@ == old(out)@ + u32_le(x as nat),
{
    out.push((x % 256) as u8);
    out.push(((x / 256) % 256) as u8);
    out.push(((x / 65536) % 256) as u8);
    out.push(((x / 16777216) % 256) as u8);
    proof {
        assert(out@ =~= old(out)@ + u32_le(x as nat));
    }
}

/// Read a 4-byte little-endian word.
fn read_u32_le(bytes: &[u8], offset: usize) -> (r: u32)
    requires
        offset + 4 <= bytes@.len(),
    ensures
        r as nat == le_val(bytes@.subrange(offset as int, offset as int + 4)),
{
    let b0 = bytes[offset] as u32;
    let b1 = bytes[offset + 1] as u32;
    let b2 = bytes[offset + 2] as u32;
    let b3 = bytes[offset + 3] as u32;
    let r = b0 + 256 * b1 + 65536 * b2 + 16777216 * b3;
    proof {
        let s = bytes@.subrange(offset as int, offset as int + 4);
        let s1 = s.subrange(1, 4);
        let s2 = s1.subrange(1, 3);
        let s3 = s2.subrange(1, 2);
        assert(s3.subrange(1, 1).len() == 0);
        assert(le_val(s3.subrange(1, 1)) == 0);
        assert(le_val(s3) == s[3] as nat);
        assert(le_val(s2) == s[2] as nat + 256 * (s[3] as nat));
        assert(le_val(s1) == s[1] as nat + 256 * (s[2] as nat + 256 * (s[3] as nat)));
        assert(le_val(s) == s[0] as nat + 256 * (s[1] as nat + 256 * (s[2] as nat + 256 * (
        s[3] as nat))));
    }
    r
}

/// A non-negative balance snapshot: a Pedersen commitment to the balance
/// together with a 64-bit range proof.
#[derive(Clone, Debug)]
pub struct BalanceCommitment {
    /// The Pedersen commitment to the balance.
    pub commitment: Commitment,
    /// Range proof that the balance lies in `[0, 2^64)`.
    pub range_proof: RangeProof,
}

impl BalanceCommitment {
    /// Commit to a balance under the fixed generators and attach a 64-bit
    /// range proof.  Every `u64` balance fits the 64-bit range, so this
    /// always succeeds.
    pub fn new(balance: u64, blinding: &Scalar) -> (r: Result<Self, CoreError>)
        requires
            blinding.wf(),
        ensures
            r is Ok,
            r matches Ok(b) ==> {
                &&& b.commitment.wf()
                &&& b.commitment.point.val() == commit_val(balance as nat, blinding.val())
                &&& b.commitment.value == Some(balance)
                &&& b.commitment.blinding == Some(*blinding)
                &&& b.range_proof.bit_length == 64
            },
    {
        let pedersen = PedersenCommitment::new();
        let commitment = pedersen.commit(balance, blinding);
        let range_proof = RangeProof::prove(balance, blinding, 64)?;
        Ok(BalanceCommitment { commitment, range_proof })
    }

    /// Verify the attached range proof against the commitment.
    pub fn verify(&self) -> (r: bool)
        ensures
            r == true,
    {
        self.range_proof.verify(&self.commitment)
    }
}

} // verus!
