//! Points of the Edwards form of Curve25519, held in their canonical
//! compressed encoding.
use crate::bytes::{le_nat, to_array};
use crate::error::EccError;
use crate::scalar::{group_order, ScalarInner};
use crate::text::{decode, encode_upper, hex_bytes, is_hex, lemma_hex_round_trip, upper_hex};
use curve25519_dalek::edwards::{CompressedEdwardsY, EdwardsPoint};
use curve25519_dalek::scalar::Scalar;
use curve25519_dalek::traits::Identity;
use vstd::prelude::*;

verus! {

/// Declares curve25519-dalek's `EdwardsPoint`, which `PointInner::new` takes and
/// compresses.
#[verifier::external_type_specification]
#[verifier::external_body]
pub struct ExEdwardsPoint(EdwardsPoint);

/// The canonical encoding of the point that 32 bytes decompress to, or `None`
/// where they are not the encoding of a point of the curve.
pub uninterp spec fn decompressed(b: Seq<u8>) -> Option<Seq<u8>>;

/// The encoding of the sum of the points that `a` and `b` encode.
pub uninterp spec fn edwards_sum(a: Seq<u8>, b: Seq<u8>) -> Seq<u8>;

/// The encoding of the negation of the point that `a` encodes.
pub uninterp spec fn edwards_neg(a: Seq<u8>) -> Seq<u8>;

/// The encoding of `k` times the point that `a` encodes.
pub uninterp spec fn edwards_mul(a: Seq<u8>, k: nat) -> Seq<u8>;

/// The canonical encoding of a point of the curve.
pub open spec fn is_point_encoding(b: Seq<u8>) -> bool {
    decompressed(b) == Some(b)
}

/// The encoding of the identity, the point (0, 1).
pub open spec fn identity_encoding() -> Seq<u8> {
    Seq::new(32, |i: int| if i == 0 { 1u8 } else { 0u8 })
}

/// The encoding of the Ed25519 base point.
pub open spec fn basepoint_encoding() -> Seq<u8> {
    Seq::new(32, |i: int| if i == 0 { 0x58u8 } else { 0x66u8 })
}

/// Relies on `CompressedEdwardsY::decompress` of curve25519-dalek, and on
/// `EdwardsPoint::compress` for the canonical encoding of what it found.
#[verifier::external_body]
fn decompress_bytes(b: [u8; 32]) -> (r: Option<[u8; 32]>)
    ensures
        match r {
            Some(c) => decompressed(b@) == Some(c@) && is_point_encoding(c@),
            None => decompressed(b@) is None,
        },
{
    match CompressedEdwardsY(b).decompress() {
        Some(p) => Some(p.compress().to_bytes()),
        None => None,
    }
}

/// Relies on `EdwardsPoint::compress` of curve25519-dalek: the canonical
/// encoding of a point.
#[verifier::external_body]
fn compress_point(p: &EdwardsPoint) -> (r: [u8; 32])
    ensures
        is_point_encoding(r@),
{
    p.compress().to_bytes()
}

/// Relies on curve25519-dalek's `EdwardsPoint + EdwardsPoint`.
#[verifier::external_body]
fn add_points(a: [u8; 32], b: [u8; 32]) -> (r: [u8; 32])
    requires
        is_point_encoding(a@),
        is_point_encoding(b@),
    ensures
        r@ == edwards_sum(a@, b@),
        is_point_encoding(r@),
{
    let p = CompressedEdwardsY(a).decompress().unwrap();
    let q = CompressedEdwardsY(b).decompress().unwrap();
    (p + q).compress().to_bytes()
}

/// Relies on curve25519-dalek's `-EdwardsPoint`.
#[verifier::external_body]
fn neg_point(a: [u8; 32]) -> (r: [u8; 32])
    requires
        is_point_encoding(a@),
    ensures
        r@ == edwards_neg(a@),
        is_point_encoding(r@),
{
    let p = CompressedEdwardsY(a).decompress().unwrap();
    (-p).compress().to_bytes()
}

/// Relies on curve25519-dalek's `EdwardsPoint * Scalar`, which multiplies by
/// the integer that the scalar's bytes hold.
#[verifier::external_body]
fn mul_point(a: [u8; 32], k: [u8; 32]) -> (r: [u8; 32])
    requires
        is_point_encoding(a@),
        le_nat(k@) < group_order(),
    ensures
        r@ == edwards_mul(a@, le_nat(k@)),
        is_point_encoding(r@),
{
    let p = CompressedEdwardsY(a).decompress().unwrap();
    (p * Scalar::from_bits(k)).compress().to_bytes()
}

/// Relies on curve25519-dalek's `EdwardsPoint == EdwardsPoint`, a
/// constant-time comparison of the points, which canonical encodings share
/// exactly when the points are equal.
#[verifier::external_body]
fn points_equal(a: &[u8; 32], b: &[u8; 32]) -> (r: bool)
    requires
        is_point_encoding(a@),
        is_point_encoding(b@),
    ensures
        r == (a@ == b@),
{
    CompressedEdwardsY(*a).decompress().unwrap() == CompressedEdwardsY(*b).decompress().unwrap()
}

/// Relies on `EdwardsPoint::identity` of curve25519-dalek, the point (0, 1).
#[verifier::external_body]
fn identity_bytes() -> (r: [u8; 32])
    ensures
        r@ == identity_encoding(),
        is_point_encoding(r@),
{
    EdwardsPoint::identity().compress().to_bytes()
}

/// Relies on `constants::ED25519_BASEPOINT_POINT` of curve25519-dalek.
#[verifier::external_body]
fn basepoint_bytes() -> (r: [u8; 32])
    ensures
        r@ == basepoint_encoding(),
        is_point_encoding(r@),
{
    curve25519_dalek::constants::ED25519_BASEPOINT_POINT.compress().to_bytes()
}

/// A point of the curve. It holds the point's canonical compressed encoding:
/// the y-coordinate in little-endian order, with the sign of x in the top bit.
#[derive(Clone, Copy, Debug)]
pub struct PointInner {
    pub(crate) bytes: [u8; 32],
}

impl View for PointInner {
    type V = Seq<u8>;

    /// The 32 bytes that encode the point.
    open(crate) spec fn view(&self) -> Seq<u8> {
        self.bytes@
    }
}

impl PointInner {
    #[verifier::type_invariant]
    spec fn well_formed(self) -> bool {
        is_point_encoding(self.bytes@)
    }

    /// The point that curve25519-dalek holds.
    pub fn new(point: EdwardsPoint) -> (r: PointInner)
        ensures
            is_point_encoding(r@),
    {
        PointInner { bytes: compress_point(&point) }
    }

    /// Decompresses 32 bytes. Any other length, and bytes that are not the
    /// encoding of a point of the curve, are refused.
    pub fn from_bytes(bytes: &[u8]) -> (r: Result<PointInner, EccError>)
        ensures
            match r {
                Ok(p) => bytes@.len() == 32 && decompressed(bytes@) == Some(p@),
                Err(e) => (bytes@.len() != 32 || decompressed(bytes@) is None) && e
                    == EccError::ParseError,
            },
    {
        if bytes.len() != 32 {
            return Err(EccError::ParseError);
        }
        let b: [u8; 32] = to_array(bytes);
        match decompress_bytes(b) {
            Some(c) => Ok(PointInner { bytes: c }),
            None => Err(EccError::ParseError),
        }
    }

    /// The canonical compressed encoding.
    pub fn to_bytes(&self) -> (r: [u8; 32])
        ensures
            r@ == self@,
            is_point_encoding(r@),
    {
        proof {
            use_type_invariant(self);
        }
        self.bytes
    }

    /// The order ℓ of the base point, as a scalar: ℓ reduced modulo ℓ, which
    /// is zero.
    pub fn order() -> (r: ScalarInner)
        ensures
            r.value() == group_order() % group_order(),
            r.value() == 0,
    {
        ScalarInner::order()
    }

    /// The identity of the group.
    pub fn zero() -> (r: PointInner)
        ensures
            r@ == identity_encoding(),
    {
        PointInner { bytes: identity_bytes() }
    }

    /// The base point, which generates the subgroup of order ℓ.
    pub fn one() -> (r: PointInner)
        ensures
            r@ == basepoint_encoding(),
    {
        PointInner { bytes: basepoint_bytes() }
    }

    /// The base point: the same point as `one`.
    pub fn generator() -> (r: PointInner)
        ensures
            r@ == basepoint_encoding(),
    {
        PointInner::one()
    }

    /// The sum under the group law.
    pub fn add(&self, rhs: &PointInner) -> (r: PointInner)
        ensures
            r@ == edwards_sum(self@, rhs@),
    {
        proof {
            use_type_invariant(self);
            use_type_invariant(rhs);
        }
        PointInner { bytes: add_points(self.bytes, rhs.bytes) }
    }

    /// The inverse under the group law.
    pub fn neg(&self) -> (r: PointInner)
        ensures
            r@ == edwards_neg(self@),
    {
        proof {
            use_type_invariant(self);
        }
        PointInner { bytes: neg_point(self.bytes) }
    }

    /// The point added to itself as many times as the scalar's integer says.
    pub fn mul(&self, rhs: &ScalarInner) -> (r: PointInner)
        ensures
            r@ == edwards_mul(self@, rhs.value()),
    {
        proof {
            use_type_invariant(self);
            use_type_invariant(rhs);
        }
        PointInner { bytes: mul_point(self.bytes, rhs.bytes) }
    }

    /// The uppercase hexadecimal text of the encoding: 64 characters.
    pub fn to_hex(&self) -> (r: String)
        ensures
            r@ == upper_hex(self@),
            is_point_encoding(self@),
    {
        proof {
            use_type_invariant(self);
        }
        encode_upper(&self.bytes)
    }

    /// Reads a point from 64 hexadecimal digits of either case, as `from_bytes`
    /// reads the 32 bytes they stand for. All other text is refused alike.
    pub fn from_hex(s: &str) -> (r: Result<PointInner, EccError>)
        ensures
            match r {
                Ok(p) => is_hex(s@) && s@.len() == 64 && decompressed(hex_bytes(s@)) == Some(p@),
                Err(e) => !(is_hex(s@) && s@.len() == 64 && decompressed(hex_bytes(s@)) is Some)
                    && e == EccError::EncodingError,
            },
    {
        match decode(s) {
            Ok(v) => {
                if v.len() == 32 {
                    match PointInner::from_bytes(v.as_slice()) {
                        Ok(p) => Ok(p),
                        Err(_) => Err(EccError::EncodingError),
                    }
                } else {
                    Err(EccError::EncodingError)
                }
            },
            Err(_) => Err(EccError::EncodingError),
        }
    }
}

/// Decompressing the canonical encoding of a point and compressing the
/// point again gives back the same bytes.
pub proof fn lemma_point_round_trip(b: Seq<u8>, p: PointInner)
    requires
        is_point_encoding(b),
        decompressed(b) == Some(p@),
    ensures
        p@ == b,
{
}

/// Reading the text that `to_hex` writes of a point gives back that point.
pub proof fn lemma_point_text_round_trip(p: PointInner)
    requires
        is_point_encoding(p@),
    ensures
        is_hex(upper_hex(p@)),
        upper_hex(p@).len() == 64,
        decompressed(hex_bytes(upper_hex(p@))) == Some(p@),
{
    lemma_hex_round_trip(p@);
}

impl PartialEq for PointInner {
    /// Compares the two points in constant time.
    fn eq(&self, other: &PointInner) -> (r: bool) {
        proof {
            use_type_invariant(self);
            use_type_invariant(other);
        }
        points_equal(&self.bytes, &other.bytes)
    }
}

impl vstd::std_specs::cmp::PartialEqSpecImpl for PointInner {
    open spec fn obeys_eq_spec() -> bool {
        true
    }

    open spec fn eq_spec(&self, other: &PointInner) -> bool {
        self@ == other@
    }
}

} // verus!
