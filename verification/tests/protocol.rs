//! End-to-end tests of the folding and batch-verification protocols, with
//! honest commitments, quotients, and evaluations built over the backend.

use kzg_verifier::{
    batch_verify_multi_points, derive_gamma, fold, fold_proof, BatchOpeningProof, G1Point, G2Point,
    KzgError, KzgVerifyingKey, OpeningProof, Scalar,
};
use substrate_bn::{AffineG1, AffineG2, Fq, Fr, Group, G1, G2};

fn fr_bytes(f: Fr) -> Vec<u8> {
    let mut out = [0u8; 32];
    f.into_u256().to_big_endian(&mut out).unwrap();
    out.to_vec()
}

fn fq_bytes(f: Fq) -> Vec<u8> {
    let mut out = [0u8; 32];
    f.into_u256().to_big_endian(&mut out).unwrap();
    out.to_vec()
}

fn scalar_of(f: Fr) -> Scalar {
    Scalar::from_bytes_reduced(&fr_bytes(f))
}

fn fr_of(s: &Scalar) -> Fr {
    Fr::from_slice(&s.to_be_bytes()).unwrap()
}

fn fr_u64(n: u64) -> Fr {
    Fr::from_str(&n.to_string()).unwrap()
}

fn g1_of(p: G1) -> G1Point {
    let a = AffineG1::from_jacobian(p).expect("point is not the identity");
    G1Point::from_coords(&fq_bytes(a.x()), &fq_bytes(a.y())).expect("point is on the curve")
}

fn g2_of(p: G2) -> G2Point {
    let a = AffineG2::from_jacobian(p).expect("point is not the identity");
    G2Point::from_coords(
        &fq_bytes(a.x().real()),
        &fq_bytes(a.x().imaginary()),
        &fq_bytes(a.y().real()),
        &fq_bytes(a.y().imaginary()),
    )
    .expect("point is in the subgroup")
}

/// The trusted-setup secret and the verifying key built from it.
fn setup() -> (Fr, KzgVerifyingKey) {
    let alpha = Fr::from_str("2876452876345628376428374628374685019283746529").unwrap();
    let vk = KzgVerifyingKey {
        g1: g1_of(G1::one()),
        g2_gen: g2_of(G2::one()),
        g2_alpha: g2_of(G2::one() * alpha),
    };
    (alpha, vk)
}

/// Horner evaluation of a polynomial given by its coefficients, low first.
fn eval(poly: &[Fr], x: Fr) -> Fr {
    let mut acc = Fr::zero();
    for c in poly.iter().rev() {
        acc = acc * x + *c;
    }
    acc
}

/// The commitment `p(alpha) * G1` to a polynomial.
fn commit(poly: &[Fr], alpha: Fr) -> G1 {
    G1::one() * eval(poly, alpha)
}

/// The honest quotient commitment `(p(alpha) - p(z)) / (alpha - z) * G1`
/// opening `poly` at `z`.
fn quotient(poly: &[Fr], z: Fr, alpha: Fr) -> G1 {
    let num = eval(poly, alpha) - eval(poly, z);
    let den = (alpha - z).inverse().unwrap();
    G1::one() * (num * den)
}

/// An honest opening of `poly` at `z`.
fn open_at(poly: &[Fr], z: Fr, alpha: Fr) -> OpeningProof {
    OpeningProof { h: g1_of(quotient(poly, z, alpha)), claimed_value: scalar_of(eval(poly, z)) }
}

/// A family of distinct small test polynomials.
fn poly(i: u64) -> Vec<Fr> {
    vec![fr_u64(3 + i), fr_u64(7 * i + 1), fr_u64(i * i + 2), fr_u64(5 + 2 * i)]
}

fn honest_batch(n: u64, alpha: Fr) -> (Vec<G1Point>, Vec<OpeningProof>, Vec<Scalar>) {
    let mut digests = Vec::new();
    let mut proofs = Vec::new();
    let mut points = Vec::new();
    for i in 0..n {
        let p = poly(i);
        let z = fr_u64(1000 + 17 * i);
        digests.push(g1_of(commit(&p, alpha)));
        proofs.push(open_at(&p, z, alpha));
        points.push(scalar_of(z));
    }
    (digests, proofs, points)
}

#[test]
fn completeness_two_openings() {
    let (alpha, vk) = setup();
    let (digests, proofs, points) = honest_batch(2, alpha);
    assert_eq!(batch_verify_multi_points(&digests, &proofs, &points, &vk), Ok(()));
}

#[test]
fn completeness_three_openings() {
    let (alpha, vk) = setup();
    let (digests, proofs, points) = honest_batch(3, alpha);
    assert_eq!(batch_verify_multi_points(&digests, &proofs, &points, &vk), Ok(()));
}

#[test]
fn completeness_eight_openings() {
    let (alpha, vk) = setup();
    let (digests, proofs, points) = honest_batch(8, alpha);
    assert_eq!(batch_verify_multi_points(&digests, &proofs, &points, &vk), Ok(()));
}

#[test]
fn completeness_single_opening() {
    let (alpha, vk) = setup();
    let (digests, proofs, points) = honest_batch(1, alpha);
    assert_eq!(batch_verify_multi_points(&digests, &proofs, &points, &vk), Ok(()));
}

#[test]
fn single_opening_rejects_wrong_value() {
    let (alpha, vk) = setup();
    let (digests, mut proofs, points) = honest_batch(1, alpha);
    proofs[0].claimed_value = scalar_of(fr_u64(424242));
    assert_eq!(
        batch_verify_multi_points(&digests, &proofs, &points, &vk),
        Err(KzgError::PairingCheckFailed)
    );
}

#[test]
fn soundness_flipped_claimed_value() {
    let (alpha, vk) = setup();
    let (digests, mut proofs, points) = honest_batch(3, alpha);
    let old = fr_of(&proofs[1].claimed_value);
    proofs[1].claimed_value = scalar_of(old + Fr::one());
    assert_eq!(
        batch_verify_multi_points(&digests, &proofs, &points, &vk),
        Err(KzgError::PairingCheckFailed)
    );
}

#[test]
fn soundness_swapped_digests() {
    let (alpha, vk) = setup();
    let (mut digests, proofs, points) = honest_batch(3, alpha);
    digests.swap(0, 2);
    assert_eq!(
        batch_verify_multi_points(&digests, &proofs, &points, &vk),
        Err(KzgError::PairingCheckFailed)
    );
}

#[test]
fn soundness_substituted_quotient() {
    let (alpha, vk) = setup();
    let (digests, mut proofs, points) = honest_batch(3, alpha);
    proofs[2].h = g1_of(G1::one() * Fr::from_str("31415926535897932384626433832795028841971").unwrap());
    assert_eq!(
        batch_verify_multi_points(&digests, &proofs, &points, &vk),
        Err(KzgError::PairingCheckFailed)
    );
}

#[test]
fn batch_verify_rejects_mismatched_lengths() {
    let (alpha, vk) = setup();
    let (digests, proofs, mut points) = honest_batch(3, alpha);
    points.pop();
    assert_eq!(
        batch_verify_multi_points(&digests, &proofs, &points, &vk),
        Err(KzgError::InvalidNumberOfDigests)
    );
}

#[test]
fn fold_rejects_mismatched_lengths() {
    let (alpha, _vk) = setup();
    let (digests, proofs, _points) = honest_batch(3, alpha);
    let evals: Vec<Scalar> = proofs.iter().map(|p| p.claimed_value.duplicate()).collect();
    let weights = vec![Scalar::one(), Scalar::one()];
    assert!(matches!(fold(&digests, &evals, &weights), Err(KzgError::InvalidNumberOfDigests)));
}

#[test]
fn fold_proof_rejects_mismatched_lengths() {
    let (alpha, _vk) = setup();
    let (digests, proofs, points) = honest_batch(3, alpha);
    let batch = BatchOpeningProof {
        h: proofs[0].h.duplicate(),
        claimed_values: vec![
            proofs[0].claimed_value.duplicate(),
            proofs[1].claimed_value.duplicate(),
        ],
    };
    let r = fold_proof(&digests, &batch, &points[0], &None);
    assert!(matches!(r, Err(KzgError::InvalidNumberOfDigests)));
}

#[test]
fn fold_with_all_ones_weights_is_plain_sum() {
    let (alpha, _vk) = setup();
    let polys = [poly(0), poly(1), poly(2)];
    let z = fr_u64(77);
    let digests: Vec<G1Point> = polys.iter().map(|p| g1_of(commit(p, alpha))).collect();
    let evals: Vec<Scalar> = polys.iter().map(|p| scalar_of(eval(p, z))).collect();
    let weights = vec![Scalar::one(), Scalar::one(), Scalar::one()];
    let (folded_digest, folded_eval) = fold(&digests, &evals, &weights).unwrap();
    let expected_digest = commit(&polys[0], alpha) + commit(&polys[1], alpha) + commit(&polys[2], alpha);
    let expected_eval = eval(&polys[0], z) + eval(&polys[1], z) + eval(&polys[2], z);
    assert_eq!(folded_digest.to_bytes(), g1_of(expected_digest).to_bytes());
    assert_eq!(folded_eval.to_be_bytes(), fr_bytes(expected_eval));
}

#[test]
fn fold_proof_is_deterministic() {
    let (alpha, _vk) = setup();
    let polys = [poly(0), poly(1)];
    let z = fr_u64(55);
    let digests: Vec<G1Point> = polys.iter().map(|p| g1_of(commit(p, alpha))).collect();
    let batch = BatchOpeningProof {
        h: g1_of(quotient(&polys[0], z, alpha)),
        claimed_values: polys.iter().map(|p| scalar_of(eval(p, z))).collect(),
    };
    let aux = Some(vec![9u8, 8, 7]);
    let (p1, d1) = fold_proof(&digests, &batch, &scalar_of(z), &aux).unwrap();
    let (p2, d2) = fold_proof(&digests, &batch, &scalar_of(z), &aux).unwrap();
    assert_eq!(p1.h.to_bytes(), p2.h.to_bytes());
    assert_eq!(p1.claimed_value.to_be_bytes(), p2.claimed_value.to_be_bytes());
    assert_eq!(d1.to_bytes(), d2.to_bytes());
}

#[test]
fn gamma_is_order_sensitive() {
    let (alpha, _vk) = setup();
    let d1 = g1_of(commit(&poly(0), alpha));
    let d2 = g1_of(commit(&poly(1), alpha));
    let values = vec![scalar_of(fr_u64(10)), scalar_of(fr_u64(20))];
    let z = scalar_of(fr_u64(5));
    let forward = derive_gamma(&z, &vec![d1.duplicate(), d2.duplicate()], &values, &None);
    let swapped = derive_gamma(&z, &vec![d2, d1], &values, &None);
    assert_ne!(forward.to_be_bytes(), swapped.to_be_bytes());
}

#[test]
fn gamma_depends_on_auxiliary_bytes() {
    let (alpha, _vk) = setup();
    let d1 = g1_of(commit(&poly(0), alpha));
    let values = vec![scalar_of(fr_u64(10))];
    let z = scalar_of(fr_u64(5));
    let without = derive_gamma(&z, &vec![d1.duplicate()], &values, &None);
    let with = derive_gamma(&z, &vec![d1], &values, &Some(vec![1u8]));
    assert_ne!(without.to_be_bytes(), with.to_be_bytes());
}

#[test]
fn fold_proof_two_equal_values_scenario() {
    let (alpha, vk) = setup();
    let p1 = poly(4);
    let z = fr_u64(900);
    let v = eval(&p1, z);
    // A second polynomial taking the same value v at z.
    let mut p2 = poly(6);
    let adjust = v - eval(&p2, z);
    p2[0] = p2[0] + adjust;
    assert_eq!(fr_bytes(eval(&p2, z)), fr_bytes(v));

    let d1 = commit(&p1, alpha);
    let d2 = commit(&p2, alpha);
    let digests = vec![g1_of(d1), g1_of(d2)];
    let values = vec![scalar_of(v), scalar_of(v)];
    let gamma = derive_gamma(&scalar_of(z), &digests, &values, &None);
    let gamma_fr = fr_of(&gamma);

    // The honest quotient for the gamma-folded polynomial p1 + gamma*p2.
    let folded_poly: Vec<Fr> = p1.iter().zip(p2.iter()).map(|(a, b)| *a + gamma_fr * *b).collect();
    let h = g1_of(quotient(&folded_poly, z, alpha));
    let batch = BatchOpeningProof { h: h.duplicate(), claimed_values: values };

    let (proof, folded_digest) = fold_proof(&digests, &batch, &scalar_of(z), &None).unwrap();
    assert_eq!(proof.h.to_bytes(), h.to_bytes());
    // The folded claimed value is v * (1 + gamma).
    assert_eq!(
        proof.claimed_value.to_be_bytes(),
        fr_bytes(v * (Fr::one() + gamma_fr))
    );
    // The folded digest is D1 + gamma * D2.
    assert_eq!(folded_digest.to_bytes(), g1_of(d1 + d2 * gamma_fr).to_bytes());
    // The folded opening verifies against the folded digest at z.
    assert_eq!(
        batch_verify_multi_points(
            &vec![folded_digest],
            &vec![proof],
            &vec![scalar_of(z)],
            &vk
        ),
        Ok(())
    );
}

#[test]
fn folded_openings_batch_verify_across_points() {
    // Two groups of claims at two distinct points, each folded first, then
    // both decided in one multi-point batch.
    let (alpha, vk) = setup();
    let z1 = fr_u64(31);
    let z2 = fr_u64(64);
    let group1 = [poly(0), poly(1), poly(2)];
    let group2 = [poly(3), poly(4)];

    let mut batched = Vec::new();
    for (zs, group) in [(z1, &group1[..]), (z2, &group2[..])] {
        let digests: Vec<G1Point> = group.iter().map(|p| g1_of(commit(p, alpha))).collect();
        let values: Vec<Scalar> = group.iter().map(|p| scalar_of(eval(p, zs))).collect();
        let gamma = derive_gamma(&scalar_of(zs), &digests, &values, &None);
        let gamma_fr = fr_of(&gamma);
        let mut folded_poly = vec![Fr::zero(); 4];
        let mut w = Fr::one();
        for p in group.iter() {
            for (k, c) in p.iter().enumerate() {
                folded_poly[k] = folded_poly[k] + w * *c;
            }
            w = w * gamma_fr;
        }
        let batch = BatchOpeningProof {
            h: g1_of(quotient(&folded_poly, zs, alpha)),
            claimed_values: values,
        };
        let (proof, folded_digest) = fold_proof(&digests, &batch, &scalar_of(zs), &None).unwrap();
        batched.push((folded_digest, proof, scalar_of(zs)));
    }
    let digests: Vec<G1Point> = batched.iter().map(|t| t.0.duplicate()).collect();
    let proofs: Vec<OpeningProof> = batched
        .iter()
        .map(|t| OpeningProof { h: t.1.h.duplicate(), claimed_value: t.1.claimed_value.duplicate() })
        .collect();
    let points: Vec<Scalar> = batched.iter().map(|t| t.2.duplicate()).collect();
    assert_eq!(batch_verify_multi_points(&digests, &proofs, &points, &vk), Ok(()));
}

#[test]
fn soundness_cancelling_errors_rejected() {
    // Two claims at the same point, tampered in opposite directions so the
    // errors would cancel under a plain unweighted sum. The Fiat-Shamir
    // weights give the two claims different coefficients, so the batch must
    // still reject.
    let (alpha, vk) = setup();
    let z = fr_u64(500);
    let p1 = poly(0);
    let p2 = poly(1);
    let digests = vec![g1_of(commit(&p1, alpha)), g1_of(commit(&p2, alpha))];
    let e = fr_u64(77);
    let proofs = vec![
        OpeningProof {
            h: g1_of(quotient(&p1, z, alpha)),
            claimed_value: scalar_of(eval(&p1, z) + e),
        },
        OpeningProof {
            h: g1_of(quotient(&p2, z, alpha)),
            claimed_value: scalar_of(eval(&p2, z) - e),
        },
    ];
    let points = vec![scalar_of(z), scalar_of(z)];
    assert_eq!(
        batch_verify_multi_points(&digests, &proofs, &points, &vk),
        Err(KzgError::PairingCheckFailed)
    );
}
