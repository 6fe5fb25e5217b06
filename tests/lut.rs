use g_mul::group::{combine, double, generator, neutral};
use g_mul::lut::MulLut;
use k256::elliptic_curve::sec1::{FromEncodedPoint, ToEncodedPoint};
use k256::elliptic_curve::PrimeField;
use k256::{AffinePoint, EncodedPoint, FieldBytes, ProjectivePoint, Scalar};

const GENERATOR_UNCOMPRESSED: &str = "0479be667ef9dcbbac55a06295ce870b07029bfcdb2dce28d959f2815b16f81798483ada7726a3c4655da4fbfc0e1108a8fd17b448a68554199c47d08ffb10d4b8";

fn encode(p: &ProjectivePoint) -> Vec<u8> {
    p.to_affine().to_encoded_point(false).as_bytes().to_vec()
}

fn decode(bytes: &[u8]) -> AffinePoint {
    let ep = EncodedPoint::from_bytes(bytes).expect("valid SEC1 bytes");
    Option::from(AffinePoint::from_encoded_point(&ep)).expect("point on the curve")
}

fn hex(bytes: &[u8]) -> String {
    bytes.iter().map(|b| format!("{:02x}", b)).collect()
}

/// Little-endian bytes of a scalar.
fn le_bytes(s: &Scalar) -> [u8; 32] {
    let mut b: [u8; 32] = s.to_bytes().into();
    b.reverse();
    b
}

fn scalar_from_le(le: &[u8; 32]) -> Scalar {
    let mut be = *le;
    be.reverse();
    Option::from(Scalar::from_repr(FieldBytes::from(be))).expect("canonical scalar")
}

/// Generic multiplication of the generator, without the table.
fn generic(s: &Scalar) -> Vec<u8> {
    encode(&(ProjectivePoint::GENERATOR * s))
}

fn next_random(state: &mut u64) -> u64 {
    *state ^= *state << 13;
    *state ^= *state >> 7;
    *state ^= *state << 17;
    *state
}

/// A pseudo-random scalar below the group order (its top byte is below 0xff).
fn random_scalar(state: &mut u64) -> [u8; 32] {
    let mut b = [0u8; 32];
    for chunk in b.chunks_mut(8) {
        chunk.copy_from_slice(&next_random(state).to_le_bytes());
    }
    b[31] %= 0xff;
    b
}

fn order_minus_one() -> Scalar {
    -Scalar::ONE
}

#[test]
fn table_matches_generic_multiples() {
    let lut = MulLut::new();
    for j in 0..256usize {
        assert_eq!(lut.entry(0, j).clone(), generic(&Scalar::from(j as u64)), "row 0, column {}", j);
    }
    let mut row_base = Scalar::ONE;
    for i in 0..32usize {
        for &j in &[0usize, 1, 2, 3, 17, 128, 200, 255] {
            let expected = generic(&(row_base * Scalar::from(j as u64)));
            assert_eq!(lut.entry(i, j).clone(), expected, "row {}, column {}", i, j);
        }
        row_base *= Scalar::from(256u64);
    }
}

#[test]
fn table_first_cell_is_identity() {
    let lut = MulLut::new();
    assert_eq!(lut.entry(0, 0).clone(), vec![0u8]);
    assert_eq!(lut.entry(31, 0).clone(), vec![0u8]);
    assert_eq!(hex(lut.entry(0, 1)), GENERATOR_UNCOMPRESSED);
}

#[test]
fn mul_matches_generic_multiplication() {
    let lut = MulLut::new();
    let mut fixed = vec![Scalar::ZERO, Scalar::ONE, Scalar::from(2u64), order_minus_one()];
    fixed.push(Scalar::from(0x1234_5678_9abc_def0u64));
    for s in &fixed {
        assert_eq!(lut.mul(&le_bytes(s)), generic(s));
    }
    let mut state: u64 = 0x9e37_79b9_7f4a_7c15;
    for _ in 0..100 {
        let b = random_scalar(&mut state);
        assert_eq!(lut.mul(&b), generic(&scalar_from_le(&b)));
    }
}

#[test]
fn sequential_and_parallel_agree() {
    let lut = MulLut::new();
    let mut state: u64 = 0x0123_4567_89ab_cdef;
    for _ in 0..50 {
        let b = random_scalar(&mut state);
        assert_eq!(lut.mul(&b), lut.mul_rayon(&b));
    }
    for s in &[Scalar::ZERO, Scalar::ONE, order_minus_one()] {
        let b = le_bytes(s);
        assert_eq!(lut.mul(&b), lut.mul_rayon(&b));
    }
}

#[test]
fn zero_gives_identity_and_one_gives_generator() {
    let lut = MulLut::new();
    let zero = [0u8; 32];
    let mut one = [0u8; 32];
    one[0] = 1;
    assert_eq!(lut.mul(&zero), neutral());
    assert_eq!(lut.mul_rayon(&zero), neutral());
    assert_eq!(lut.mul(&one), generator());
    assert_eq!(lut.mul_rayon(&one), generator());
    assert_eq!(neutral(), encode(&ProjectivePoint::IDENTITY));
}

#[test]
fn building_twice_gives_identical_tables() {
    let a = MulLut::new();
    let b = MulLut::new();
    for i in 0..32usize {
        for j in 0..256usize {
            assert_eq!(a.entry(i, j), b.entry(i, j), "cell ({}, {})", i, j);
        }
    }
}

#[test]
fn encoding_round_trip_keeps_the_point() {
    let lut = MulLut::new();
    let mut state: u64 = 0xdead_beef_cafe_f00d;
    for _ in 0..10 {
        let b = random_scalar(&mut state);
        let bytes = lut.mul(&b);
        let point = decode(&bytes);
        assert_eq!(point.to_encoded_point(false).as_bytes().to_vec(), bytes);
        assert_eq!(ProjectivePoint::from(point), ProjectivePoint::GENERATOR * scalar_from_le(&b));
    }
}

#[test]
fn scalar_one_encodes_to_the_generator() {
    let lut = MulLut::new();
    let mut one = [0u8; 32];
    one[0] = 1;
    assert_eq!(hex(&lut.mul(&one)), GENERATOR_UNCOMPRESSED);
}

#[test]
fn scalar_two_is_generator_plus_generator() {
    let lut = MulLut::new();
    let mut two = [0u8; 32];
    two[0] = 2;
    let g = ProjectivePoint::GENERATOR;
    assert_eq!(lut.mul(&two), encode(&(g + g)));
    assert_eq!(lut.mul_rayon(&two), encode(&(g + g)));
}

#[test]
fn order_minus_one_is_negated_generator() {
    let lut = MulLut::new();
    let b = le_bytes(&order_minus_one());
    assert_eq!(lut.mul(&b), encode(&(-ProjectivePoint::GENERATOR)));
    assert_eq!(lut.mul_rayon(&b), encode(&(-ProjectivePoint::GENERATOR)));
}

#[test]
fn high_byte_alone_uses_the_last_row() {
    let lut = MulLut::new();
    let mut b = [0u8; 32];
    b[31] = 0x7f;
    assert_eq!(lut.mul(&b), generic(&scalar_from_le(&b)));
    assert_eq!(lut.mul(&b), lut.entry(31, 0x7f).clone());
}

#[test]
fn combine_adds_points() {
    let g = generator();
    let two_g = combine(&g, &g);
    assert_ne!(two_g, g);
    assert_eq!(two_g, encode(&ProjectivePoint::GENERATOR.double()));
    let three_g = combine(&two_g, &g);
    assert_eq!(three_g, generic(&Scalar::from(3u64)));
    assert_eq!(combine(&g, &neutral()), g);
    assert_eq!(combine(&neutral(), &g), g);
    assert_eq!(combine(&g, &two_g), combine(&two_g, &g));
}

#[test]
fn double_multiplies_by_two() {
    let g = generator();
    let d = double(&g);
    assert_ne!(d, g);
    assert_eq!(d, generic(&Scalar::from(2u64)));
    let mut p = g.clone();
    for _ in 0..8 {
        p = double(&p);
    }
    assert_eq!(p, generic(&Scalar::from(256u64)));
    assert_eq!(double(&neutral()), neutral());
}

#[test]
fn generator_and_neutral_encodings() {
    assert_eq!(hex(&generator()), GENERATOR_UNCOMPRESSED);
    assert_eq!(neutral(), vec![0u8]);
}
