//! Dual-key stealth-address protocol.
//!
//! A recipient publishes two public keys: the spend key controls fund
//! movement, the view key lets a (possibly delegated) scanner recognise
//! incoming outputs without spend authority.  For each payment the sender
//! samples an ephemeral keypair, derives a shared secret by Diffie-Hellman
//! with the recipient's view key, hashes it to a scalar, and offsets the
//! recipient's spend key by that scalar to obtain a one-time public key.
//! The recipient recomputes the same shared secret from the ephemeral
//! public key and its view secret, recognises the output, and recovers the
//! one-time secret key — which the sender never learns.

use vstd::prelude::*;
use vstd::array::array_as_slice;
use vstd::arithmetic::div_mod::lemma_mod_bound;

use crate::group::{
    group_order, hash_to_scalar, hts_val, enc_of, mul_base, point_add, point_eq, point_mul,
    random_scalar, GroupPoint, Scalar,
};

verus! {

/// The shared secret point of the Diffie-Hellman exchange, as a discrete
/// logarithm: one side's secret scalar times the other side's public point.
pub open spec fn shared_val(secret: nat, public: nat) -> nat {
    (secret * public) % group_order()
}

/// The scalar both parties derive from a shared secret: the canonical
/// encoding of the shared point, hashed to a scalar by wide reduction.
pub open spec fn stealth_tag(shared: nat) -> nat {
    hts_val(enc_of(shared))
}

/// The one-time public key the sender derives: the hash scalar of the
/// shared secret times `G`, offset by the recipient's spend public key.
pub open spec fn stealth_pub_val(eph_secret: nat, spend_pub: nat, view_pub: nat) -> nat {
    (stealth_tag(shared_val(eph_secret, view_pub)) + spend_pub) % group_order()
}

/// The one-time secret key the recipient recovers: the hash scalar of the
/// recomputed shared secret plus the spend secret key.
pub open spec fn recovered_val(eph_pub: nat, spend_secret: nat, view_secret: nat) -> nat {
    (stealth_tag(shared_val(view_secret, eph_pub)) + spend_secret) % group_order()
}

/// Stealth correctness: derivation and scanning agree.  For any key values
/// `spend` and `view` and any ephemeral secret `eph`, the scalar a scanner
/// recovers equals the discrete logarithm of the one-time public key the
/// sender derived — so the recovered scalar's public point is exactly the
/// published one-time key, and the scan comparison matches.
pub proof fn lemma_stealth_round_trip(spend: nat, view: nat, eph: nat)
    ensures
        recovered_val(eph, spend, view) == stealth_pub_val(eph, spend, view),
        recovered_val(eph, spend, view) < group_order(),
{
    assert(view * eph == eph * view) by (nonlinear_arith);
    lemma_mod_bound(
        (stealth_tag(shared_val(view, eph)) + spend) as int,
        group_order() as int,
    );
}

/// A wallet identity's stealth keys: two independent key pairs, where each
/// public key is the secret scalar times the base point.
pub struct StealthKeypair {
    /// Spend secret key.
    pub spend_private: Scalar,
    /// Spend public key.
    pub spend_public: GroupPoint,
    /// View secret key.
    pub view_private: Scalar,
    /// View public key.
    pub view_public: GroupPoint,
}

impl StealthKeypair {
    /// A keypair is well formed when all four components are well formed
    /// and each public key is its secret key's multiple of the base point.
    pub open spec fn wf(self) -> bool {
        &&& self.spend_private.wf()
        &&& self.spend_public.wf()
        &&& self.view_private.wf()
        &&& self.view_public.wf()
        &&& self.spend_public.val() == self.spend_private.val()
        &&& self.view_public.val() == self.view_private.val()
    }

    /// Generate a fresh keypair from two uniformly sampled secret scalars.
    pub fn generate() -> (r: Self)
        ensures
            r.wf(),
    {
        let spend_private = random_scalar();
        let spend_public = mul_base(&spend_private);
        let view_private = random_scalar();
        let view_public = mul_base(&view_private);
        StealthKeypair { spend_private, spend_public, view_private, view_public }
    }

    /// Assemble a keypair from secret key material supplied by a
    /// key-derivation collaborator: each 32-byte secret is reduced modulo
    /// the group order and the matching public keys are computed.
    pub fn from_secrets(spend_secret: &[u8; 32], view_secret: &[u8; 32]) -> (r: Self)
        ensures
            r.wf(),
            r.spend_private.val() == crate::group::le_val(spend_secret@) % group_order(),
            r.view_private.val() == crate::group::le_val(view_secret@) % group_order(),
    {
        let spend_private = Scalar::from_bytes_mod_order(*spend_secret);
        let view_private = Scalar::from_bytes_mod_order(*view_secret);
        let spend_public = mul_base(&spend_private);
        let view_public = mul_base(&view_private);
        StealthKeypair { spend_private, spend_public, view_private, view_public }
    }

    /// Sender side: derive a one-time stealth address for a recipient from
    /// the recipient's two public keys.  Returns the ephemeral public key
    /// and one-time public key to publish, and the ephemeral secret, which
    /// is not published.
    pub fn derive_stealth_address(
        recipient_spend_public: &GroupPoint,
        recipient_view_public: &GroupPoint,
    ) -> (r: (GroupPoint, GroupPoint, Scalar))
        requires
            recipient_spend_public.wf(),
            recipient_view_public.wf(),
        ensures
            r.0.wf(),
            r.1.wf(),
            r.2.wf(),
            r.0.val() == r.2.val(),
            r.1.val() == stealth_pub_val(
                r.2.val(),
                recipient_spend_public.val(),
                recipient_view_public.val(),
            ),
    {
        let ephemeral_private = random_scalar();
        let ephemeral_public = mul_base(&ephemeral_private);
        let shared_secret = point_mul(&ephemeral_private, recipient_view_public);
        let shared_bytes = shared_secret.as_bytes();
        let hash_scalar = hash_to_scalar(array_as_slice(&shared_bytes));
        let tag_point = mul_base(&hash_scalar);
        let stealth_public = point_add(&tag_point, recipient_spend_public);
        (ephemeral_public, stealth_public, ephemeral_private)
    }

    /// Recipient side: scan one published output.  Recomputes the shared
    /// secret from the view secret and the ephemeral public key, rebuilds
    /// the expected one-time public key, and compares group elements.  On a
    /// match the one-time secret key is returned; on a mismatch — the
    /// expected outcome for outputs addressed to others — nothing is.  The
    /// shape of the computation is the same either way: everything is
    /// computed before the single comparison.
    pub fn scan_stealth_address(
        &self,
        ephemeral_public: &GroupPoint,
        stealth_public: &GroupPoint,
    ) -> (r: Option<Scalar>)
        requires
            self.wf(),
            ephemeral_public.wf(),
            stealth_public.wf(),
        ensures
            r is Some <==> recovered_val(
                ephemeral_public.val(),
                self.spend_public.val(),
                self.view_private.val(),
            ) == stealth_public.val(),
            r matches Some(k) ==> k.wf() && k.val() == recovered_val(
                ephemeral_public.val(),
                self.spend_private.val(),
                self.view_private.val(),
            ),
    {
        let shared_secret = point_mul(&self.view_private, ephemeral_public);
        let shared_bytes = shared_secret.as_bytes();
        let hash_scalar = hash_to_scalar(array_as_slice(&shared_bytes));
        let tag_point = mul_base(&hash_scalar);
        let expected_public = point_add(&tag_point, &self.spend_public);
        if point_eq(&expected_public, stealth_public) {
            Some(hash_scalar.add(&self.spend_private))
        } else {
            None
        }
    }
}

/// Sender-side entry on wire data: derive a one-time stealth address from a
/// recipient's public keys received in their 32-byte canonical encodings.
/// Rejects an encoding that does not denote a group element.
pub fn derive_stealth_address_bytes(spend_public: &[u8; 32], view_public: &[u8; 32]) -> (r: Option<
    (GroupPoint, GroupPoint, Scalar),
>)
    ensures
        r is Some <==> crate::group::is_group_enc(spend_public@) && crate::group::is_group_enc(
            view_public@,
        ),
        r matches Some(t) ==> t.0.wf() && t.1.wf() && t.2.wf() && t.0.val() == t.2.val()
            && t.1.val() == stealth_pub_val(
            t.2.val(),
            crate::group::enc_val(spend_public@),
            crate::group::enc_val(view_public@),
        ),
{
    let spend = match crate::group::point_decode(spend_public) {
        Some(p) => p,
        None => {
            return None;
        },
    };
    let view = match crate::group::point_decode(view_public) {
        Some(p) => p,
        None => {
            return None;
        },
    };
    Some(StealthKeypair::derive_stealth_address(&spend, &view))
}

/// Recipient-side entry on wire data: rebuild the keypair from its two
/// secret scalars and scan one `(ephemeral, one-time)` pair received in
/// canonical encodings.  Rejects an encoding that does not denote a group
/// element; otherwise reports the scan outcome as `scan_stealth_address`
/// does.
pub fn scan_output(
    spend_private: &Scalar,
    view_private: &Scalar,
    ephemeral_public: &[u8; 32],
    stealth_public: &[u8; 32],
) -> (r: Option<Option<Scalar>>)
    requires
        spend_private.wf(),
        view_private.wf(),
    ensures
        r is Some <==> crate::group::is_group_enc(ephemeral_public@)
            && crate::group::is_group_enc(stealth_public@),
        r matches Some(scan) ==> {
            &&& (scan is Some <==> recovered_val(
                crate::group::enc_val(ephemeral_public@),
                spend_private.val(),
                view_private.val(),
            ) == crate::group::enc_val(stealth_public@))
            &&& (scan matches Some(k) ==> k.wf() && k.val() == recovered_val(
                crate::group::enc_val(ephemeral_public@),
                spend_private.val(),
                view_private.val(),
            ))
        },
{
    let keypair = StealthKeypair {
        spend_private: *spend_private,
        spend_public: mul_base(spend_private),
        view_private: *view_private,
        view_public: mul_base(view_private),
    };
    let eph = match crate::group::point_decode(ephemeral_public) {
        Some(p) => p,
        None => {
            return None;
        },
    };
    let stealth = match crate::group::point_decode(stealth_public) {
        Some(p) => p,
        None => {
            return None;
        },
    };
    Some(keypair.scan_stealth_address(&eph, &stealth))
}

} // verus!
