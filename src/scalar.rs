//! Elements of the field of integers modulo the order ℓ of the Ed25519 base point.
use crate::bytes::{le_nat, lemma_le_nat_injective, lemma_le_nat_zeros, to_array};
use crate::error::EccError;
use crate::text::{decode, encode_upper, hex_bytes, is_hex, lemma_hex_round_trip, upper_hex};
use curve25519_dalek::scalar::Scalar;
use vstd::arithmetic::div_mod::{
    lemma_add_mod_noop, lemma_add_mod_noop_right, lemma_mod_self_0, lemma_mul_mod_noop_general,
    lemma_small_mod,
};
use vstd::arithmetic::mul::{lemma_mul_is_associative, lemma_mul_is_distributive_add};
use vstd::prelude::*;

verus! {

/// ℓ = 2^252 + 27742317777372353535851937790883648493, a prime.
pub open spec fn group_order() -> nat {
    0x1000_0000_0000_0000 * 0x1_0000_0000_0000_0000 * 0x1_0000_0000_0000_0000
        * 0x1_0000_0000_0000_0000 + 27742317777372353535851937790883648493
}

/// The sum of two field elements.
pub open spec fn field_add(a: nat, b: nat) -> nat {
    (a + b) % group_order()
}

/// The product of two field elements.
pub open spec fn field_mul(a: nat, b: nat) -> nat {
    (a * b) % group_order()
}

/// The additive inverse of a field element.
pub open spec fn field_neg(a: nat) -> nat {
    (group_order() - a % group_order()) as nat % group_order()
}

/// Relies on `Scalar::from_bytes_mod_order` of curve25519-dalek: the 256-bit
/// little-endian integer reduced modulo ℓ, in its canonical encoding.
#[verifier::external_body]
fn reduce_narrow(b: [u8; 32]) -> (r: [u8; 32])
    ensures
        le_nat(r@) == le_nat(b@) % group_order(),
{
    Scalar::from_bytes_mod_order(b).to_bytes()
}

/// Relies on `Scalar::from_bytes_mod_order_wide` of curve25519-dalek: the 512-bit
/// little-endian integer reduced modulo ℓ, in its canonical encoding.
#[verifier::external_body]
fn reduce_wide(b: &[u8; 64]) -> (r: [u8; 32])
    ensures
        le_nat(r@) == le_nat(b@) % group_order(),
{
    Scalar::from_bytes_mod_order_wide(b).to_bytes()
}

/// Relies on curve25519-dalek's `Scalar + Scalar`: the sum modulo ℓ.
#[verifier::external_body]
fn add_bytes(a: [u8; 32], b: [u8; 32]) -> (r: [u8; 32])
    requires
        le_nat(a@) < group_order(),
        le_nat(b@) < group_order(),
    ensures
        le_nat(r@) == field_add(le_nat(a@), le_nat(b@)),
{
    (Scalar::from_bits(a) + Scalar::from_bits(b)).to_bytes()
}

/// Relies on curve25519-dalek's `Scalar * Scalar`: the product modulo ℓ.
#[verifier::external_body]
fn mul_bytes(a: [u8; 32], b: [u8; 32]) -> (r: [u8; 32])
    requires
        le_nat(a@) < group_order(),
        le_nat(b@) < group_order(),
    ensures
        le_nat(r@) == field_mul(le_nat(a@), le_nat(b@)),
{
    (Scalar::from_bits(a) * Scalar::from_bits(b)).to_bytes()
}

/// Relies on curve25519-dalek's `-&Scalar`, which reduces its operand modulo ℓ
/// and subtracts it from zero.
#[verifier::external_body]
fn neg_bytes(a: [u8; 32]) -> (r: [u8; 32])
    requires
        le_nat(a@) < group_order(),
    ensures
        le_nat(r@) == field_neg(le_nat(a@)),
{
    (-&Scalar::from_bits(a)).to_bytes()
}

/// Relies on `Scalar::invert` of curve25519-dalek: for a nonzero element, its
/// multiplicative inverse modulo ℓ, reduced.
#[verifier::external_body]
fn invert_bytes(a: [u8; 32]) -> (r: [u8; 32])
    requires
        le_nat(a@) < group_order(),
        le_nat(a@) != 0,
    ensures
        le_nat(r@) < group_order(),
        field_mul(le_nat(a@), le_nat(r@)) == 1,
{
    Scalar::from_bits(a).invert().to_bytes()
}

/// Relies on curve25519-dalek's `Scalar == Scalar`, a constant-time comparison
/// of the two encodings.
#[verifier::external_body]
fn ct_equal(a: &[u8; 32], b: &[u8; 32]) -> (r: bool)
    requires
        le_nat(a@) < group_order(),
        le_nat(b@) < group_order(),
    ensures
        r == (a@ == b@),
{
    Scalar::from_bits(*a) == Scalar::from_bits(*b)
}

/// Relies on `constants::BASEPOINT_ORDER` of curve25519-dalek, which holds ℓ.
#[verifier::external_body]
fn order_bytes() -> (r: [u8; 32])
    ensures
        le_nat(r@) == group_order(),
{
    curve25519_dalek::constants::BASEPOINT_ORDER.to_bytes()
}

/// An element of the scalar field. It holds the 32-byte little-endian encoding
/// of its value, which is always reduced modulo ℓ.
#[derive(Clone, Copy, Debug)]
pub struct ScalarInner {
    pub(crate) bytes: [u8; 32],
}

impl View for ScalarInner {
    type V = Seq<u8>;

    /// The 32 bytes that encode the element.
    open(crate) spec fn view(&self) -> Seq<u8> {
        self.bytes@
    }
}

impl ScalarInner {
    #[verifier::type_invariant]
    pub(crate) open spec fn well_formed(self) -> bool {
        le_nat(self.bytes@) < group_order()
    }

    /// The integer that the element holds.
    pub open spec fn value(&self) -> nat {
        le_nat(self@)
    }

    /// Reads an element from 32 bytes or, to sample one without bias, from 64:
    /// the little-endian integer that they encode, reduced modulo ℓ. Any other
    /// length is refused.
    pub fn from_bytes(bytes: &[u8]) -> (r: Result<ScalarInner, EccError>)
        ensures
            match r {
                Ok(s) => (bytes@.len() == 32 || bytes@.len() == 64) && s.value() == le_nat(bytes@)
                    % group_order(),
                Err(e) => bytes@.len() != 32 && bytes@.len() != 64 && e == EccError::ParseError,
            },
    {
        if bytes.len() == 64 {
            let wide: [u8; 64] = to_array(bytes);
            Ok(ScalarInner { bytes: reduce_wide(&wide) })
        } else if bytes.len() == 32 {
            let narrow: [u8; 32] = to_array(bytes);
            Ok(ScalarInner { bytes: reduce_narrow(narrow) })
        } else {
            Err(EccError::ParseError)
        }
    }

    /// The additive identity.
    pub fn zero() -> (r: ScalarInner)
        ensures
            r.value() == 0,
    {
        let b = [0u8; 32];
        proof {
            lemma_le_nat_zeros(b@);
        }
        ScalarInner { bytes: b }
    }

    /// The multiplicative identity.
    pub fn one() -> (r: ScalarInner)
        ensures
            r.value() == 1,
    {
        let mut b = [0u8; 32];
        b[0] = 1;
        proof {
            lemma_le_nat_zeros(b@.drop_first());
        }
        ScalarInner { bytes: b }
    }

    /// The order ℓ of the base point, as an element: ℓ reduced modulo ℓ,
    /// which is zero.
    pub fn order() -> (r: ScalarInner)
        ensures
            r.value() == group_order() % group_order(),
            r.value() == 0,
    {
        ScalarInner { bytes: reduce_narrow(order_bytes()) }
    }

    /// Turns 32 uniformly random bytes into a random nonzero element: their
    /// integer reduced modulo ℓ, or `None` where that is zero and the caller
    /// must draw again.
    pub fn random(input: [u8; 32]) -> (r: Option<ScalarInner>)
        ensures
            match r {
                Some(s) => s.value() == le_nat(input@) % group_order() && s.value() != 0,
                None => le_nat(input@) % group_order() == 0,
            },
    {
        let candidate = ScalarInner { bytes: reduce_narrow(input) };
        let zero = ScalarInner::zero();
        proof {
            if candidate.value() == 0 {
                lemma_le_nat_injective(candidate@, zero@);
            }
        }
        if candidate.eq(&zero) {
            None
        } else {
            Some(candidate)
        }
    }

    /// The sum modulo ℓ.
    pub fn add(&self, rhs: &ScalarInner) -> (r: ScalarInner)
        ensures
            r.value() == field_add(self.value(), rhs.value()),
    {
        proof {
            use_type_invariant(self);
            use_type_invariant(rhs);
        }
        ScalarInner { bytes: add_bytes(self.bytes, rhs.bytes) }
    }

    /// The product modulo ℓ.
    pub fn mul(&self, rhs: &ScalarInner) -> (r: ScalarInner)
        ensures
            r.value() == field_mul(self.value(), rhs.value()),
    {
        proof {
            use_type_invariant(self);
            use_type_invariant(rhs);
        }
        ScalarInner { bytes: mul_bytes(self.bytes, rhs.bytes) }
    }

    /// The multiplicative inverse modulo ℓ. Zero has none, so the element must
    /// not be zero.
    pub fn inv(&self) -> (r: ScalarInner)
        requires
            self.value() != 0,
        ensures
            r.value() < group_order(),
            field_mul(self.value(), r.value()) == 1,
    {
        proof {
            use_type_invariant(self);
        }
        ScalarInner { bytes: invert_bytes(self.bytes) }
    }

    /// The additive inverse modulo ℓ.
    pub fn neg(&self) -> (r: ScalarInner)
        ensures
            r.value() == field_neg(self.value()),
    {
        proof {
            use_type_invariant(self);
        }
        ScalarInner { bytes: neg_bytes(self.bytes) }
    }

    /// The uppercase hexadecimal text of the encoding: 64 characters.
    pub fn to_hex(&self) -> (r: String)
        ensures
            r@ == upper_hex(self@),
            self.value() < group_order(),
    {
        proof {
            use_type_invariant(self);
        }
        encode_upper(&self.bytes)
    }

    /// Reads an element from 64 hexadecimal digits of either case, as `from_bytes`
    /// reads the 32 bytes they stand for. All other text is refused alike.
    pub fn from_hex(s: &str) -> (r: Result<ScalarInner, EccError>)
        ensures
            match r {
                Ok(x) => is_hex(s@) && s@.len() == 64 && x.value() == le_nat(hex_bytes(s@))
                    % group_order(),
                Err(e) => !(is_hex(s@) && s@.len() == 64) && e == EccError::EncodingError,
            },
    {
        match decode(s) {
            Ok(v) => {
                if v.len() == 32 {
                    match ScalarInner::from_bytes(v.as_slice()) {
                        Ok(x) => Ok(x),
                        Err(_) => Err(EccError::EncodingError),
                    }
                } else {
                    Err(EccError::EncodingError)
                }
            },
            Err(_) => Err(EccError::EncodingError),
        }
    }

    /// The canonical little-endian encoding of the element.
    pub fn to_bytes(&self) -> (r: [u8; 32])
        ensures
            r@ == self@,
            le_nat(r@) == self.value(),
            self.value() < group_order(),
    {
        proof {
            use_type_invariant(self);
        }
        self.bytes
    }
}

/// Reading 32 bytes whose integer is below ℓ and encoding the element again
/// gives back those bytes: an element equal to them modulo ℓ is encoded by them.
pub proof fn lemma_encoding_round_trip(b: Seq<u8>, s: ScalarInner)
    requires
        b.len() == 32,
        le_nat(b) < group_order(),
        s.value() == le_nat(b) % group_order(),
    ensures
        s@ == b,
{
    lemma_small_mod(le_nat(b), group_order());
    lemma_le_nat_injective(s@, b);
}

/// Reading the bytes that `to_bytes` gives of an element gives back that element.
pub proof fn lemma_bytes_round_trip(x: ScalarInner, y: ScalarInner)
    requires
        x.value() < group_order(),
        y.value() == le_nat(x@) % group_order(),
    ensures
        y == x,
{
    lemma_small_mod(x.value(), group_order());
    lemma_value_determines_element(x, y);
}

/// Reading the text that `to_hex` writes of an element gives back that element.
pub proof fn lemma_text_round_trip(x: ScalarInner, y: ScalarInner)
    requires
        x.value() < group_order(),
        y.value() == le_nat(hex_bytes(upper_hex(x@))) % group_order(),
    ensures
        is_hex(upper_hex(x@)),
        upper_hex(x@).len() == 64,
        y == x,
{
    lemma_hex_round_trip(x@);
    lemma_small_mod(x.value(), group_order());
    lemma_value_determines_element(x, y);
}

/// Elements with one value are the same element.
pub proof fn lemma_value_determines_element(a: ScalarInner, b: ScalarInner)
    requires
        a.value() == b.value(),
    ensures
        a == b,
{
    lemma_le_nat_injective(a@, b@);
    assert(a.bytes == b.bytes);
}

/// Addition is commutative.
pub proof fn lemma_add_commutative(a: nat, b: nat)
    ensures
        field_add(a, b) == field_add(b, a),
{
}

/// Addition is associative.
pub proof fn lemma_add_associative(a: nat, b: nat, c: nat)
    ensures
        field_add(field_add(a, b), c) == field_add(a, field_add(b, c)),
{
    let m = group_order() as int;
    lemma_add_mod_noop_right(c as int, (a + b) as int, m);
    lemma_add_mod_noop_right(a as int, (b + c) as int, m);
    assert((c + (a + b)) == (a + (b + c)));
}

/// Zero is the identity of addition.
pub proof fn lemma_add_zero(a: nat)
    ensures
        field_add(a, 0) == a % group_order(),
{
}

/// An element plus its additive inverse is zero.
pub proof fn lemma_add_neg(a: nat)
    ensures
        field_add(a, field_neg(a)) == 0,
{
    let m = group_order() as int;
    let r = a % group_order();
    if r == 0 {
        assert(field_neg(a) == 0);
    } else {
        lemma_small_mod((m - r) as nat, m as nat);
        lemma_add_mod_noop(a as int, m - r, m);
        lemma_mod_self_0(m);
        assert(r + (m - r) == m);
    }
}

/// Multiplication is commutative.
pub proof fn lemma_mul_commutative(a: nat, b: nat)
    ensures
        field_mul(a, b) == field_mul(b, a),
{
    assert(a * b == b * a) by (nonlinear_arith);
}

/// Multiplication is associative.
pub proof fn lemma_mul_associative(a: nat, b: nat, c: nat)
    ensures
        field_mul(field_mul(a, b), c) == field_mul(a, field_mul(b, c)),
{
    let m = group_order() as int;
    lemma_mul_mod_noop_general((a * b) as int, c as int, m);
    lemma_mul_mod_noop_general(a as int, (b * c) as int, m);
    lemma_mul_is_associative(a as int, b as int, c as int);
}

/// Multiplication distributes over addition.
pub proof fn lemma_mul_distributes(a: nat, b: nat, c: nat)
    ensures
        field_mul(a, field_add(b, c)) == field_add(field_mul(a, b), field_mul(a, c)),
{
    let m = group_order() as int;
    lemma_mul_mod_noop_general(a as int, (b + c) as int, m);
    lemma_mul_is_distributive_add(a as int, b as int, c as int);
    lemma_add_mod_noop((a * b) as int, (a * c) as int, m);
}

/// One is the identity of multiplication.
pub proof fn lemma_mul_one(a: nat)
    ensures
        field_mul(a, 1) == a % group_order(),
{
}

impl PartialEq for ScalarInner {
    /// Compares the two encodings in constant time.
    fn eq(&self, other: &ScalarInner) -> (r: bool) {
        proof {
            use_type_invariant(self);
            use_type_invariant(other);
        }
        ct_equal(&self.bytes, &other.bytes)
    }
}

impl vstd::std_specs::cmp::PartialEqSpecImpl for ScalarInner {
    open spec fn obeys_eq_spec() -> bool {
        true
    }

    open spec fn eq_spec(&self, other: &ScalarInner) -> bool {
        self@ == other@
    }
}

} // verus!
