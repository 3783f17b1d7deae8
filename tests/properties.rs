use dislog_hal_curve25519::{EccError, PointInner, ScalarInner};
use rand::RngCore;

const ORDER_BYTES: [u8; 32] = [
    237, 211, 245, 92, 26, 99, 18, 88, 214, 156, 247, 162, 222, 249, 222, 20, 0, 0, 0, 0, 0, 0,
    0, 0, 0, 0, 0, 0, 0, 0, 0, 16,
];

fn small(a: u8) -> ScalarInner {
    let mut b = [0u8; 32];
    b[0] = a;
    ScalarInner::from_bytes(&b).unwrap()
}

fn draw(rng: &mut impl RngCore) -> ScalarInner {
    loop {
        let mut input = [0u8; 32];
        rng.fill_bytes(&mut input);
        if let Some(s) = ScalarInner::random(input) {
            return s;
        }
    }
}

fn random_point(rng: &mut impl RngCore) -> PointInner {
    PointInner::generator().mul(&draw(rng))
}

#[test]
fn scalar_from_bytes_rejects_other_lengths() {
    assert_eq!(ScalarInner::from_bytes(&[0u8; 31]), Err(EccError::ParseError));
    assert_eq!(ScalarInner::from_bytes(&[0u8; 33]), Err(EccError::ParseError));
    assert_eq!(ScalarInner::from_bytes(&[]), Err(EccError::ParseError));
}

#[test]
fn scalar_narrow_reduction() {
    assert_eq!(ScalarInner::from_bytes(&ORDER_BYTES).unwrap(), ScalarInner::zero());
    let mut above = ORDER_BYTES;
    above[0] += 1;
    assert_eq!(ScalarInner::from_bytes(&above).unwrap(), ScalarInner::one());
    assert_eq!(ScalarInner::from_bytes(&above).unwrap().to_bytes()[0], 1);
}

#[test]
fn scalar_wide_reduction() {
    let mut wide = [0u8; 64];
    wide[..32].copy_from_slice(&ORDER_BYTES);
    assert_eq!(ScalarInner::from_bytes(&wide).unwrap(), ScalarInner::zero());
    let mut two = [0u8; 64];
    two[0] = 2;
    assert_eq!(ScalarInner::from_bytes(&two).unwrap(), small(2));
    // 2^256 modulo the order differs from zero.
    let mut high = [0u8; 64];
    high[32] = 1;
    assert_ne!(ScalarInner::from_bytes(&high).unwrap(), ScalarInner::zero());
}

#[test]
fn scalar_round_trip() {
    let b = [
        0x1a, 0x0e, 0x97, 0x8a, 0x90, 0xf6, 0x62, 0x2d, 0x37, 0x47, 0x02, 0x3f, 0x8a, 0xd8, 0x26,
        0x4d, 0xa7, 0x58, 0xaa, 0x1b, 0x88, 0xe0, 0x40, 0xd1, 0x58, 0x9e, 0x7b, 0x7f, 0x23, 0x76,
        0xef, 0x09,
    ];
    assert_eq!(ScalarInner::from_bytes(&b).unwrap().to_bytes(), b);
}

#[test]
fn scalar_constants() {
    assert_eq!(ScalarInner::zero().to_bytes(), [0u8; 32]);
    let mut one = [0u8; 32];
    one[0] = 1;
    assert_eq!(ScalarInner::one().to_bytes(), one);
    assert_eq!(ScalarInner::order().to_bytes(), [0u8; 32]);
    assert_eq!(ScalarInner::order(), ScalarInner::zero());
    assert_eq!(PointInner::order(), ScalarInner::order());
}

#[test]
fn scalar_arithmetic_values() {
    assert_eq!(small(7).add(&small(9)), small(16));
    assert_eq!(small(7).mul(&small(9)), small(63));
    let mut minus_one = ORDER_BYTES;
    minus_one[0] -= 1;
    assert_eq!(small(1).neg().to_bytes(), minus_one);
    assert_eq!(ScalarInner::zero().neg(), ScalarInner::zero());
    assert_eq!(small(2).inv().mul(&small(2)), ScalarInner::one());
    assert_ne!(small(2).inv(), small(2));
    assert_eq!(ScalarInner::order().add(&small(5)), small(5));
    assert_eq!(ScalarInner::order().mul(&small(5)), ScalarInner::zero());
}

#[test]
fn scalar_field_laws_on_random_values() {
    let mut rng = rand::thread_rng();
    for _ in 0..20 {
        let a = draw(&mut rng);
        let b = draw(&mut rng);
        let c = draw(&mut rng);
        assert_eq!(a.add(&b), b.add(&a));
        assert_eq!(a.add(&b).add(&c), a.add(&b.add(&c)));
        assert_eq!(a.mul(&a.inv()), ScalarInner::one());
        assert_eq!(a.add(&a.neg()), ScalarInner::zero());
        assert_eq!(a.mul(&b), b.mul(&a));
        assert_eq!(a.mul(&ScalarInner::one()), a);
        assert_eq!(a.add(&ScalarInner::zero()), a);
    }
}

#[test]
fn random_never_zero() {
    let mut rng = rand::thread_rng();
    for _ in 0..200 {
        assert_ne!(draw(&mut rng), ScalarInner::zero());
    }
}

#[test]
fn random_rejects_zero_candidates() {
    assert_eq!(ScalarInner::random([0u8; 32]), None);
    assert_eq!(ScalarInner::random(ORDER_BYTES), None);
    let mut b = [0u8; 32];
    b[0] = 4;
    assert_eq!(ScalarInner::random(b), Some(small(4)));
}

#[test]
fn scalar_hex() {
    let expected = format!("01{}", "00".repeat(31));
    assert_eq!(ScalarInner::one().to_hex(), expected);
    let mut b = [0u8; 32];
    b[0] = 0xab;
    b[31] = 0x0c;
    let s = ScalarInner::from_bytes(&b).unwrap();
    let text = s.to_hex();
    assert_eq!(text, format!("AB{}0C", "00".repeat(30)));
    assert_eq!(ScalarInner::from_hex(&text), Ok(s));
    assert_eq!(ScalarInner::from_hex(&text.to_lowercase()), Ok(s));
}

#[test]
fn scalar_round_trips_for_every_constant() {
    for x in [ScalarInner::zero(), ScalarInner::one(), ScalarInner::order(), small(1).neg()] {
        assert_eq!(ScalarInner::from_hex(&x.to_hex()), Ok(x));
        assert_eq!(ScalarInner::from_bytes(&x.to_bytes()), Ok(x));
    }
}

#[test]
fn point_hex_round_trip() {
    let p = PointInner::generator().mul(&small(9));
    assert_eq!(PointInner::from_hex(&p.to_hex()), Ok(p));
    assert_eq!(PointInner::from_hex(&PointInner::zero().to_hex()), Ok(PointInner::zero()));
}

#[test]
fn scalar_hex_errors() {
    assert_eq!(ScalarInner::from_hex("0"), Err(EccError::EncodingError));
    assert_eq!(ScalarInner::from_hex(&"0g".repeat(32)), Err(EccError::EncodingError));
    assert_eq!(ScalarInner::from_hex(&"00".repeat(31)), Err(EccError::EncodingError));
    assert_eq!(ScalarInner::from_hex(&"00".repeat(64)), Err(EccError::EncodingError));
}

#[test]
fn point_constants() {
    let mut identity = [0u8; 32];
    identity[0] = 1;
    assert_eq!(PointInner::zero().to_bytes(), identity);
    let mut base = [0x66u8; 32];
    base[0] = 0x58;
    assert_eq!(PointInner::one().to_bytes(), base);
    assert_eq!(PointInner::generator(), PointInner::one());
    assert_ne!(PointInner::zero(), PointInner::one());
}

#[test]
fn point_round_trip() {
    let p = PointInner::one().mul(&small(11));
    let b = p.to_bytes();
    assert_eq!(PointInner::from_bytes(&b).unwrap().to_bytes(), b);
    assert_eq!(PointInner::from_bytes(&b).unwrap(), p);
}

#[test]
fn point_invalid_decompression() {
    let mut b = [0u8; 32];
    b[0] = 2;
    assert_eq!(PointInner::from_bytes(&b), Err(EccError::ParseError));
    assert_eq!(PointInner::from_bytes(&[0x58u8; 31]), Err(EccError::ParseError));
}

#[test]
fn point_group_laws_on_random_values() {
    let mut rng = rand::thread_rng();
    for _ in 0..5 {
        let p = random_point(&mut rng);
        let q = random_point(&mut rng);
        let s1 = draw(&mut rng);
        let s2 = draw(&mut rng);
        assert_eq!(p.add(&q), q.add(&p));
        assert_eq!(p.add(&p.neg()), PointInner::zero());
        assert_eq!(p.mul(&PointInner::order()), PointInner::zero());
        assert_eq!(p.mul(&s1.add(&s2)), p.mul(&s1).add(&p.mul(&s2)));
        assert_eq!(p.mul(&ScalarInner::zero()), PointInner::zero());
        assert_eq!(p.mul(&ScalarInner::one()), p);
        assert_eq!(p.add(&PointInner::zero()), p);
    }
}

#[test]
fn point_negation_and_sum_values() {
    let g = PointInner::one();
    assert_ne!(g.neg(), g);
    assert_eq!(g.add(&g), g.mul(&small(2)));
    assert_ne!(g.add(&g), g);
    assert_eq!(g.neg().add(&g.mul(&small(3))), g.mul(&small(2)));
}

#[test]
fn order_minus_one_times_generator_is_inverse() {
    let last = PointInner::generator().mul(&ScalarInner::order().add(&small(1).neg()));
    assert_eq!(last.add(&PointInner::generator()), PointInner::zero());
    assert_eq!(last, PointInner::generator().neg());
}

#[test]
fn point_from_new() {
    let p = PointInner::new(curve25519_dalek::constants::ED25519_BASEPOINT_POINT);
    assert_eq!(p, PointInner::one());
}

#[test]
fn point_hex() {
    let text = PointInner::one().to_hex();
    assert_eq!(text, format!("58{}", "66".repeat(31)));
    assert_eq!(PointInner::from_hex(&text), Ok(PointInner::one()));
    assert_eq!(PointInner::from_hex(&text.to_lowercase()), Ok(PointInner::one()));
    let mut bad = "02".to_string();
    bad.push_str(&"00".repeat(31));
    assert_eq!(PointInner::from_hex(&bad), Err(EccError::EncodingError));
    assert_eq!(PointInner::from_hex("5866"), Err(EccError::EncodingError));
    assert_eq!(PointInner::from_hex(&"zz".repeat(32)), Err(EccError::EncodingError));
}

#[test]
fn point_non_canonical_encodings() {
    let mut identity = [0u8; 32];
    identity[0] = 1;
    let mut signed = identity;
    signed[31] = 0x80;
    assert_eq!(PointInner::from_bytes(&signed).unwrap().to_bytes(), identity);
    // y = p + 1, which is 1 modulo p = 2^255 - 19.
    let mut wrapped = [0xffu8; 32];
    wrapped[0] = 0xee;
    wrapped[31] = 0x7f;
    assert_eq!(PointInner::from_bytes(&wrapped).unwrap(), PointInner::zero());
}

#[test]
fn scalar_mul_laws_on_values() {
    let a = small(200);
    let b = small(17);
    let c = small(99);
    assert_eq!(a.mul(&b).mul(&c), a.mul(&b.mul(&c)));
    assert_eq!(a.mul(&b.add(&c)), a.mul(&b).add(&a.mul(&c)));
}

#[test]
fn generator_times_fixture_scalar() {
    let ax = ScalarInner::from_bytes(&[
        0x1a, 0x0e, 0x97, 0x8a, 0x90, 0xf6, 0x62, 0x2d, 0x37, 0x47, 0x02, 0x3f, 0x8a, 0xd8, 0x26,
        0x4d, 0xa7, 0x58, 0xaa, 0x1b, 0x88, 0xe0, 0x40, 0xd1, 0x58, 0x9e, 0x7b, 0x7f, 0x23, 0x76,
        0xef, 0x09,
    ])
    .unwrap();
    let g = PointInner::generator();
    let once = g.mul(&ax);
    assert_eq!(once.add(&once).add(&once), g.mul(&ax.mul(&small(3))));
    assert_eq!(once.add(&once).add(&once), once.mul(&small(3)));
}
