//! Tests of the scalar and point primitives against the curve backend.

use kzg_verifier::scalar::{scalar_add, scalar_mul};
use kzg_verifier::{G1Point, G2Point, Scalar};
use substrate_bn::{AffineG1, Fq, Fr, Group, G1};

fn fr_bytes(f: Fr) -> Vec<u8> {
    let mut out = [0u8; 32];
    f.into_u256().to_big_endian(&mut out).unwrap();
    out.to_vec()
}

fn fq_bytes(f: Fq) -> Vec<u8> {
    let mut out = [0u8; 32];
    f.into_u256().to_big_endian(&mut out).unwrap();
    out.to_vec()
}

fn scalar_of(f: Fr) -> Scalar {
    Scalar::from_bytes_reduced(&fr_bytes(f))
}

fn fr_u64(n: u64) -> Fr {
    Fr::from_str(&n.to_string()).unwrap()
}

fn u64_bytes(n: u64) -> Vec<u8> {
    let mut out = vec![0u8; 24];
    out.extend_from_slice(&n.to_be_bytes());
    out
}

#[test]
fn scalar_zero_one_encodings() {
    assert_eq!(Scalar::zero().to_be_bytes(), u64_bytes(0));
    assert_eq!(Scalar::one().to_be_bytes(), u64_bytes(1));
}

#[test]
fn scalar_roundtrip_small_value() {
    let s = Scalar::from_bytes_reduced(&u64_bytes(5));
    assert_eq!(s.to_be_bytes(), u64_bytes(5));
    assert_eq!(s.duplicate().to_be_bytes(), u64_bytes(5));
}

#[test]
fn scalar_add_small_values() {
    let a = Scalar::from_bytes_reduced(&u64_bytes(2));
    let b = Scalar::from_bytes_reduced(&u64_bytes(3));
    assert_eq!(scalar_add(&a, &b).to_be_bytes(), u64_bytes(5));
}

#[test]
fn scalar_mul_small_values() {
    let a = Scalar::from_bytes_reduced(&u64_bytes(7));
    let b = Scalar::from_bytes_reduced(&u64_bytes(6));
    assert_eq!(scalar_mul(&a, &b).to_be_bytes(), u64_bytes(42));
}

#[test]
fn scalar_reduction_of_large_bytes() {
    // All-ones bytes are far above the field order and must be reduced.
    let big = vec![0xffu8; 32];
    let reduced = Scalar::from_bytes_reduced(&big);
    assert_ne!(reduced.to_be_bytes(), big);
    // Reducing the already-canonical result changes nothing further.
    let twice = Scalar::from_bytes_reduced(&reduced.to_be_bytes());
    assert_eq!(twice.to_be_bytes(), reduced.to_be_bytes());
}

#[test]
fn g1_generator_coordinates_accepted() {
    // The G1 generator is (1, 2).
    let p = G1Point::from_coords(&u64_bytes(1), &u64_bytes(2));
    assert!(p.is_some());
    let mut expected = u64_bytes(1);
    expected.extend_from_slice(&u64_bytes(2));
    assert_eq!(p.unwrap().to_bytes(), expected);
}

#[test]
fn g1_off_curve_coordinates_rejected() {
    // (1, 1) does not satisfy y^2 = x^3 + 3.
    assert!(G1Point::from_coords(&u64_bytes(1), &u64_bytes(1)).is_none());
}

#[test]
fn g1_identity_encoding() {
    assert_eq!(G1Point::identity().to_bytes(), vec![0u8; 64]);
}

#[test]
fn g1_point_from_backend_roundtrip() {
    let p = G1::one() * fr_u64(11);
    let a = AffineG1::from_jacobian(p).unwrap();
    let lib = G1Point::from_coords(&fq_bytes(a.x()), &fq_bytes(a.y())).unwrap();
    let mut expected = fq_bytes(a.x());
    expected.extend_from_slice(&fq_bytes(a.y()));
    assert_eq!(lib.to_bytes(), expected);
    assert_eq!(lib.duplicate().to_bytes(), expected);
}

#[test]
fn g2_bad_coordinates_rejected() {
    assert!(
        G2Point::from_coords(&u64_bytes(1), &u64_bytes(1), &u64_bytes(1), &u64_bytes(1)).is_none()
    );
}

#[test]
fn scalar_of_backend_value_matches() {
    let x = fr_u64(123456789);
    assert_eq!(scalar_of(x).to_be_bytes(), fr_bytes(x));
}
