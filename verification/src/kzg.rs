//! The two KZG batch-opening protocols: folding several claims at one point
//! into a single opening, and deciding several openings at distinct points
//! with one pairing equation.

use vstd::prelude::*;

use crate::curve::{
    g1_add, g1_identity_bytes, g1_mul, g1_neg, g1_sub, pairing_two_is_one, spec_g1_add,
    spec_g1_neg, spec_g1_scale, spec_g1_sub, G1Point, G2Point,
};
use crate::scalar::{be_bytes, be_int, lemma_be_bytes_len, scalar_add, scalar_modulus, scalar_mul, Scalar};
use crate::transcript::{spec_sha256, Transcript};
use vstd::arithmetic::div_mod::lemma_small_mod;

verus! {

/// Why a verification call failed: the input sequences disagreed in length,
/// or the pairing equation did not hold (the proof is invalid).
#[derive(Clone, Copy, Debug, PartialEq, Eq, Structural)]
pub enum KzgError {
    InvalidNumberOfDigests,
    PairingCheckFailed,
}

/// One opening claim: a quotient commitment `h` and the value the committed
/// polynomial is claimed to take at an externally supplied point.
pub struct OpeningProof {
    pub h: G1Point,
    pub claimed_value: Scalar,
}

/// Several claims sharing one quotient commitment and one evaluation point:
/// `claimed_values[i]` is the value claimed for the i-th digest.
pub struct BatchOpeningProof {
    pub h: G1Point,
    pub claimed_values: Vec<Scalar>,
}

/// The verifying key: the G1 generator, the G2 generator, and the G2
/// generator scaled by the trusted-setup secret.
pub struct KzgVerifyingKey {
    pub g1: G1Point,
    pub g2_gen: G2Point,
    pub g2_alpha: G2Point,
}

/// The values of a sequence of scalars.
pub open spec fn scalar_views(s: Seq<Scalar>) -> Seq<int> {
    s.map_values(|x: Scalar| x@)
}

/// The encodings of a sequence of G1 points.
pub open spec fn point_views(s: Seq<G1Point>) -> Seq<Seq<u8>> {
    s.map_values(|p: G1Point| p@)
}

/// The quotient commitments of a sequence of opening proofs.
pub open spec fn quotient_views(s: Seq<OpeningProof>) -> Seq<Seq<u8>> {
    s.map_values(|p: OpeningProof| p.h@)
}

/// The claimed values of a sequence of opening proofs.
pub open spec fn value_views(s: Seq<OpeningProof>) -> Seq<int> {
    s.map_values(|p: OpeningProof| p.claimed_value@)
}

/// The auxiliary transcript bytes, if any.
pub open spec fn opt_bytes_view(o: Option<Vec<u8>>) -> Option<Seq<u8>> {
    match o {
        Some(v) => Some(v@),
        None => None,
    }
}

/// The weighted sum of field elements `sum_i (vs[i] * cs[i])`, accumulated
/// modulo the field order.
pub open spec fn spec_dot(vs: Seq<int>, cs: Seq<int>) -> int
    decreases vs.len(),
{
    if vs.len() == 0 {
        0
    } else {
        (spec_dot(vs.drop_last(), cs.drop_last()) + (vs.last() * cs.last()) % scalar_modulus())
            % scalar_modulus()
    }
}

/// The plain sum of field elements, accumulated modulo the field order.
pub open spec fn spec_sum_mod(vs: Seq<int>) -> int
    decreases vs.len(),
{
    if vs.len() == 0 {
        0
    } else {
        (spec_sum_mod(vs.drop_last()) + vs.last()) % scalar_modulus()
    }
}

/// The multi-scalar multiplication `sum_i (cs[i] * ps[i])` on G1, accumulated
/// from the identity.
pub open spec fn spec_msm(ps: Seq<Seq<u8>>, cs: Seq<int>) -> Seq<u8>
    decreases ps.len(),
{
    if ps.len() == 0 {
        g1_identity_bytes()
    } else {
        spec_g1_add(spec_msm(ps.drop_last(), cs.drop_last()), spec_g1_scale(ps.last(), cs.last()))
    }
}

/// The plain (unweighted) sum of G1 points, accumulated from the identity.
pub open spec fn spec_g1_sum(ps: Seq<Seq<u8>>) -> Seq<u8>
    decreases ps.len(),
{
    if ps.len() == 0 {
        g1_identity_bytes()
    } else {
        spec_g1_add(spec_g1_sum(ps.drop_last()), ps.last())
    }
}

/// `x` to the `k`-th power in the field.
pub open spec fn spec_pow(x: int, k: nat) -> int
    decreases k,
{
    if k == 0 {
        1
    } else {
        (spec_pow(x, (k - 1) as nat) * x) % scalar_modulus()
    }
}

/// The weight vector `[1, x, x^2, ..., x^(n-1)]`.
pub open spec fn spec_powers(x: int, n: nat) -> Seq<int> {
    Seq::new(n, |i: int| spec_pow(x, i as nat))
}

/// The label under which the single-point folding challenge is derived.
pub open spec fn spec_gamma_label() -> Seq<u8> {
    seq![103u8, 97u8, 109u8, 109u8, 97u8]
}

/// The label under which the multi-point batching challenge is derived.
pub open spec fn spec_rho_label() -> Seq<u8> {
    seq![114u8, 104u8, 111u8]
}

/// A sequence of byte strings bound to a transcript in order, each under the
/// same label.
pub open spec fn spec_bind_all(label: Seq<u8>, items: Seq<Seq<u8>>) -> Seq<u8>
    decreases items.len(),
{
    if items.len() == 0 {
        Seq::empty()
    } else {
        spec_bind_all(label, items.drop_last()) + label + items.last()
    }
}

/// The canonical encodings of a sequence of scalar values.
pub open spec fn spec_scalar_bytes(vs: Seq<int>) -> Seq<Seq<u8>> {
    vs.map_values(|v: int| be_bytes(v, 32))
}

/// Everything the single-point folding challenge hashes: the point, the
/// digests, the claimed values, the optional auxiliary bytes — each bound
/// under the challenge label — and the final challenge label itself.
pub open spec fn spec_gamma_input(
    point: int,
    ds: Seq<Seq<u8>>,
    vs: Seq<int>,
    aux: Option<Seq<u8>>,
) -> Seq<u8> {
    let l = spec_gamma_label();
    l + be_bytes(point, 32) + spec_bind_all(l, ds) + spec_bind_all(l, spec_scalar_bytes(vs)) + (
    match aux {
        Some(a) => l + a,
        None => Seq::empty(),
    }) + l
}

/// The single-point folding challenge: the hash of `spec_gamma_input`,
/// reduced into the scalar field.
pub open spec fn spec_derive_gamma(
    point: int,
    ds: Seq<Seq<u8>>,
    vs: Seq<int>,
    aux: Option<Seq<u8>>,
) -> int {
    be_int(spec_sha256(spec_gamma_input(point, ds, vs, aux))) % scalar_modulus()
}

/// Everything the multi-point batching challenge hashes: the points, the
/// digests, the claimed values, and the quotient commitments, each bound
/// under the challenge label, then the final challenge label itself.
pub open spec fn spec_rho_input(
    zs: Seq<int>,
    ds: Seq<Seq<u8>>,
    vs: Seq<int>,
    qs: Seq<Seq<u8>>,
) -> Seq<u8> {
    let l = spec_rho_label();
    spec_bind_all(l, spec_scalar_bytes(zs)) + spec_bind_all(l, ds) + spec_bind_all(
        l,
        spec_scalar_bytes(vs),
    ) + spec_bind_all(l, qs) + l
}

/// The multi-point batching challenge: the hash of `spec_rho_input`, reduced
/// into the scalar field.
pub open spec fn spec_derive_rho(
    zs: Seq<int>,
    ds: Seq<Seq<u8>>,
    vs: Seq<int>,
    qs: Seq<Seq<u8>>,
) -> int {
    be_int(spec_sha256(spec_rho_input(zs, ds, vs, qs))) % scalar_modulus()
}

/// What `fold_proof` returns on matching inputs: the folded digest and the
/// folded evaluation, both combined with consecutive powers of the
/// Fiat-Shamir challenge.
pub open spec fn spec_fold_proof(
    ds: Seq<Seq<u8>>,
    vs: Seq<int>,
    point: int,
    aux: Option<Seq<u8>>,
) -> (Seq<u8>, int) {
    let g = spec_derive_gamma(point, ds, vs, aux);
    let w = spec_powers(g, ds.len());
    (spec_msm(ds, w), spec_dot(vs, w))
}

/// The direct KZG opening check for a single claim: whether
/// `e(D - v*G1 + z*h, G2) * e(-h, alpha*G2)` is the identity.
pub open spec fn spec_single_check(
    d: Seq<u8>,
    h: Seq<u8>,
    v: int,
    z: int,
    g1: Seq<u8>,
    g2_gen: Seq<u8>,
    g2_alpha: Seq<u8>,
) -> bool {
    let f = spec_g1_add(spec_g1_sub(d, spec_g1_scale(g1, v)), spec_g1_scale(h, z));
    crate::curve::spec_pairing_two_is_one(f, g2_gen, spec_g1_neg(h), g2_alpha)
}

/// The aggregated pairing check of the multi-point batch verifier, with
/// weights that are consecutive powers of the Fiat-Shamir challenge bound to
/// all public inputs. A single claim is decided by the direct check instead.
pub open spec fn spec_batch_check(
    ds: Seq<Seq<u8>>,
    hs: Seq<Seq<u8>>,
    vs: Seq<int>,
    zs: Seq<int>,
    g1: Seq<u8>,
    g2_gen: Seq<u8>,
    g2_alpha: Seq<u8>,
) -> bool {
    if ds.len() == 1 {
        spec_single_check(ds[0], hs[0], vs[0], zs[0], g1, g2_gen, g2_alpha)
    } else {
        let rho = spec_derive_rho(zs, ds, vs, hs);
        let w = spec_powers(rho, ds.len());
        let folded_quotients = spec_msm(hs, w);
        let folded_digest = spec_msm(ds, w);
        let folded_eval = spec_dot(vs, w);
        let f = spec_g1_sub(folded_digest, spec_g1_scale(g1, folded_eval));
        let w2 = Seq::new(ds.len(), |i: int| (w[i] * zs[i]) % scalar_modulus());
        let fprime = spec_g1_add(f, spec_msm(hs, w2));
        crate::curve::spec_pairing_two_is_one(
            fprime,
            g2_gen,
            spec_g1_neg(folded_quotients),
            g2_alpha,
        )
    }
}

fn gamma_label() -> (r: Vec<u8>)
    ensures
        r@ == spec_gamma_label(),
{
    let mut v: Vec<u8> = Vec::new();
    v.push(103);
    v.push(97);
    v.push(109);
    v.push(109);
    v.push(97);
    proof {
        assert(v@ =~= spec_gamma_label());
    }
    v
}

fn rho_label() -> (r: Vec<u8>)
    ensures
        r@ == spec_rho_label(),
{
    let mut v: Vec<u8> = Vec::new();
    v.push(114);
    v.push(104);
    v.push(111);
    proof {
        assert(v@ =~= spec_rho_label());
    }
    v
}

/// The weight vector `[1, x, x^2, ...]` of length `n`, each power obtained
/// from the previous one by a single field multiplication.
fn scalar_powers(x: &Scalar, n: usize) -> (r: Vec<Scalar>)
    ensures
        r@.len() == n,
        scalar_views(r@) == spec_powers(x@, n as nat),
{
    let mut r: Vec<Scalar> = Vec::new();
    if n == 0 {
        proof {
            assert(scalar_views(r@) =~= spec_powers(x@, 0));
        }
        return r;
    }
    r.push(Scalar::one());
    let mut i: usize = 1;
    while i < n
        invariant
            1 <= i <= n,
            r@.len() == i,
            forall|j: int| 0 <= j < i ==> #[trigger] r@[j]@ == spec_pow(x@, j as nat),
        decreases n - i,
    {
        let next = scalar_mul(&r[i - 1], x);
        r.push(next);
        i += 1;
    }
    proof {
        assert(scalar_views(r@) =~= spec_powers(x@, n as nat));
    }
    r
}

/// The multi-scalar multiplication `sum_i (weights[i] * points[i])` on G1.
fn msm(points: &Vec<G1Point>, weights: &Vec<Scalar>) -> (r: G1Point)
    requires
        points@.len() == weights@.len(),
    ensures
        r@ == spec_msm(point_views(points@), scalar_views(weights@)),
{
    let mut acc = G1Point::identity();
    let mut i: usize = 0;
    while i < points.len()
        invariant
            i <= points@.len(),
            points@.len() == weights@.len(),
            acc@ == spec_msm(
                point_views(points@.take(i as int)),
                scalar_views(weights@.take(i as int)),
            ),
        decreases points@.len() - i,
    {
        let term = g1_mul(&points[i], &weights[i]);
        acc = g1_add(&acc, &term);
        i += 1;
        proof {
            let ps = point_views(points@.take(i as int));
            let cs = scalar_views(weights@.take(i as int));
            assert(ps.drop_last() =~= point_views(points@.take(i as int - 1)));
            assert(cs.drop_last() =~= scalar_views(weights@.take(i as int - 1)));
            assert(ps.last() == points@[i as int - 1]@);
            assert(cs.last() == weights@[i as int - 1]@);
        }
    }
    proof {
        assert(points@.take(points@.len() as int) =~= points@);
        assert(weights@.take(weights@.len() as int) =~= weights@);
    }
    acc
}

/// The folding engine: combines digests and matching evaluations with one
/// weight vector into a single digest and a single evaluation,
/// `(sum_i weights[i]*digests[i], sum_i weights[i]*evaluations[i])`.
/// The three sequences must agree in length; otherwise nothing is combined
/// and the input-size error is returned.
pub fn fold(digests: &Vec<G1Point>, evaluations: &Vec<Scalar>, weights: &Vec<Scalar>) -> (r: Result<
    (G1Point, Scalar),
    KzgError,
>)
    ensures
        match r {
            Ok(fd) => {
                &&& digests@.len() == evaluations@.len()
                &&& evaluations@.len() == weights@.len()
                &&& fd.0@ == spec_msm(point_views(digests@), scalar_views(weights@))
                &&& fd.1@ == spec_dot(scalar_views(evaluations@), scalar_views(weights@))
            },
            Err(e) => {
                &&& e == KzgError::InvalidNumberOfDigests
                &&& !(digests@.len() == evaluations@.len() && evaluations@.len() == weights@.len())
            },
        },
{
    let n = digests.len();
    if evaluations.len() != n || weights.len() != n {
        return Err(KzgError::InvalidNumberOfDigests);
    }
    let folded_digests = msm(digests, weights);
    let mut folded_evaluations = Scalar::zero();
    let mut i: usize = 0;
    while i < n
        invariant
            i <= n,
            n == digests@.len(),
            evaluations@.len() == n,
            weights@.len() == n,
            folded_evaluations@ == spec_dot(
                scalar_views(evaluations@.take(i as int)),
                scalar_views(weights@.take(i as int)),
            ),
        decreases n - i,
    {
        let term = scalar_mul(&evaluations[i], &weights[i]);
        folded_evaluations = scalar_add(&folded_evaluations, &term);
        i += 1;
        proof {
            let vs = scalar_views(evaluations@.take(i as int));
            let cs = scalar_views(weights@.take(i as int));
            assert(vs.drop_last() =~= scalar_views(evaluations@.take(i as int - 1)));
            assert(cs.drop_last() =~= scalar_views(weights@.take(i as int - 1)));
            assert(vs.last() == evaluations@[i as int - 1]@);
            assert(cs.last() == weights@[i as int - 1]@);
        }
    }
    proof {
        assert(evaluations@.take(n as int) =~= evaluations@);
        assert(weights@.take(n as int) =~= weights@);
    }
    Ok((folded_digests, folded_evaluations))
}

/// Derives the single-point folding challenge: a fresh transcript binds the
/// point, every digest, every claimed value, and the optional auxiliary
/// bytes, in order, and the challenge is reduced into the scalar field.
pub fn derive_gamma(
    point: &Scalar,
    digests: &Vec<G1Point>,
    claimed_values: &Vec<Scalar>,
    extra_data: &Option<Vec<u8>>,
) -> (r: Scalar)
    ensures
        r@ == spec_derive_gamma(
            point@,
            point_views(digests@),
            scalar_views(claimed_values@),
            opt_bytes_view(*extra_data),
        ),
{
    let label = gamma_label();
    let mut transcript = Transcript::new();
    let point_bytes = point.to_be_bytes();
    transcript.bind(&label, &point_bytes);
    let ghost prefix0 = spec_gamma_label() + be_bytes(point@, 32);
    let mut i: usize = 0;
    while i < digests.len()
        invariant
            i <= digests@.len(),
            label@ == spec_gamma_label(),
            prefix0 == spec_gamma_label() + be_bytes(point@, 32),
            transcript@ == prefix0 + spec_bind_all(
                spec_gamma_label(),
                point_views(digests@.take(i as int)),
            ),
        decreases digests@.len() - i,
    {
        let digest_bytes = digests[i].to_bytes();
        transcript.bind(&label, &digest_bytes);
        i += 1;
        proof {
            let ds = point_views(digests@.take(i as int));
            assert(ds.drop_last() =~= point_views(digests@.take(i as int - 1)));
            assert(ds.last() == digests@[i as int - 1]@);
        }
    }
    proof {
        assert(digests@.take(digests@.len() as int) =~= digests@);
    }
    let ghost prefix1 = prefix0 + spec_bind_all(spec_gamma_label(), point_views(digests@));
    let mut j: usize = 0;
    while j < claimed_values.len()
        invariant
            j <= claimed_values@.len(),
            label@ == spec_gamma_label(),
            prefix1 == prefix0 + spec_bind_all(spec_gamma_label(), point_views(digests@)),
            transcript@ == prefix1 + spec_bind_all(
                spec_gamma_label(),
                spec_scalar_bytes(scalar_views(claimed_values@.take(j as int))),
            ),
        decreases claimed_values@.len() - j,
    {
        let value_bytes = claimed_values[j].to_be_bytes();
        transcript.bind(&label, &value_bytes);
        j += 1;
        proof {
            let vs = spec_scalar_bytes(scalar_views(claimed_values@.take(j as int)));
            assert(vs.drop_last() =~= spec_scalar_bytes(
                scalar_views(claimed_values@.take(j as int - 1)),
            ));
            assert(vs.last() == be_bytes(claimed_values@[j as int - 1]@, 32));
        }
    }
    proof {
        assert(claimed_values@.take(claimed_values@.len() as int) =~= claimed_values@);
    }
    match extra_data {
        Some(aux) => {
            transcript.bind(&label, aux);
        },
        None => {},
    }
    let challenge = transcript.compute_challenge(&label);
    proof {
        assert(transcript@ + label@ == spec_gamma_input(
            point@,
            point_views(digests@),
            scalar_views(claimed_values@),
            opt_bytes_view(*extra_data),
        ));
    }
    Scalar::from_bytes_reduced(&challenge)
}

/// Derives the multi-point batching challenge: a fresh transcript binds every
/// point, digest, claimed value, and quotient commitment, in order, and the
/// challenge is reduced into the scalar field.
fn derive_rho(points: &Vec<Scalar>, digests: &Vec<G1Point>, proofs: &Vec<OpeningProof>) -> (r:
    Scalar)
    ensures
        r@ == spec_derive_rho(
            scalar_views(points@),
            point_views(digests@),
            value_views(proofs@),
            quotient_views(proofs@),
        ),
{
    let label = rho_label();
    let mut transcript = Transcript::new();
    let mut i: usize = 0;
    while i < points.len()
        invariant
            i <= points@.len(),
            label@ == spec_rho_label(),
            transcript@ == spec_bind_all(
                spec_rho_label(),
                spec_scalar_bytes(scalar_views(points@.take(i as int))),
            ),
        decreases points@.len() - i,
    {
        let point_bytes = points[i].to_be_bytes();
        transcript.bind(&label, &point_bytes);
        i += 1;
        proof {
            let zs = spec_scalar_bytes(scalar_views(points@.take(i as int)));
            assert(zs.drop_last() =~= spec_scalar_bytes(
                scalar_views(points@.take(i as int - 1)),
            ));
            assert(zs.last() == be_bytes(points@[i as int - 1]@, 32));
        }
    }
    proof {
        assert(points@.take(points@.len() as int) =~= points@);
    }
    let ghost prefix1 = spec_bind_all(spec_rho_label(), spec_scalar_bytes(scalar_views(points@)));
    let mut j: usize = 0;
    while j < digests.len()
        invariant
            j <= digests@.len(),
            label@ == spec_rho_label(),
            prefix1 == spec_bind_all(spec_rho_label(), spec_scalar_bytes(scalar_views(points@))),
            transcript@ == prefix1 + spec_bind_all(
                spec_rho_label(),
                point_views(digests@.take(j as int)),
            ),
        decreases digests@.len() - j,
    {
        let digest_bytes = digests[j].to_bytes();
        transcript.bind(&label, &digest_bytes);
        j += 1;
        proof {
            let ds = point_views(digests@.take(j as int));
            assert(ds.drop_last() =~= point_views(digests@.take(j as int - 1)));
            assert(ds.last() == digests@[j as int - 1]@);
        }
    }
    proof {
        assert(digests@.take(digests@.len() as int) =~= digests@);
    }
    let ghost prefix2 = prefix1 + spec_bind_all(spec_rho_label(), point_views(digests@));
    let mut k: usize = 0;
    while k < proofs.len()
        invariant
            k <= proofs@.len(),
            label@ == spec_rho_label(),
            prefix2 == prefix1 + spec_bind_all(spec_rho_label(), point_views(digests@)),
            transcript@ == prefix2 + spec_bind_all(
                spec_rho_label(),
                spec_scalar_bytes(value_views(proofs@.take(k as int))),
            ),
        decreases proofs@.len() - k,
    {
        let value_bytes = proofs[k].claimed_value.to_be_bytes();
        transcript.bind(&label, &value_bytes);
        k += 1;
        proof {
            let vs = spec_scalar_bytes(value_views(proofs@.take(k as int)));
            assert(vs.drop_last() =~= spec_scalar_bytes(value_views(proofs@.take(k as int - 1))));
            assert(vs.last() == be_bytes(proofs@[k as int - 1].claimed_value@, 32));
        }
    }
    proof {
        assert(proofs@.take(proofs@.len() as int) =~= proofs@);
    }
    let ghost prefix3 = prefix2 + spec_bind_all(
        spec_rho_label(),
        spec_scalar_bytes(value_views(proofs@)),
    );
    let mut m: usize = 0;
    while m < proofs.len()
        invariant
            m <= proofs@.len(),
            label@ == spec_rho_label(),
            prefix3 == prefix2 + spec_bind_all(
                spec_rho_label(),
                spec_scalar_bytes(value_views(proofs@)),
            ),
            transcript@ == prefix3 + spec_bind_all(
                spec_rho_label(),
                quotient_views(proofs@.take(m as int)),
            ),
        decreases proofs@.len() - m,
    {
        let quotient_bytes = proofs[m].h.to_bytes();
        transcript.bind(&label, &quotient_bytes);
        m += 1;
        proof {
            let qs = quotient_views(proofs@.take(m as int));
            assert(qs.drop_last() =~= quotient_views(proofs@.take(m as int - 1)));
            assert(qs.last() == proofs@[m as int - 1].h@);
        }
    }
    proof {
        assert(proofs@.take(proofs@.len() as int) =~= proofs@);
        assert(transcript@ + spec_rho_label() == spec_rho_input(
            scalar_views(points@),
            point_views(digests@),
            value_views(proofs@),
            quotient_views(proofs@),
        ));
    }
    let challenge = transcript.compute_challenge(&label);
    Scalar::from_bytes_reduced(&challenge)
}

/// Folds a batch opening proof — several claims at one shared point — into a
/// single opening proof and the matching folded digest. The weights are the
/// consecutive powers of the Fiat-Shamir challenge derived from the point,
/// the digests, the claimed values, and the optional auxiliary bytes, so the
/// first claim enters with weight one. At least one digest or claimed value
/// must be present: an entirely empty batch is not a foldable proof.
pub fn fold_proof(
    digests: &Vec<G1Point>,
    batch_opening_proof: &BatchOpeningProof,
    point: &Scalar,
    extra_data: &Option<Vec<u8>>,
) -> (r: Result<(OpeningProof, G1Point), KzgError>)
    requires
        digests@.len() >= 1 || batch_opening_proof.claimed_values@.len() >= 1,
    ensures
        match r {
            Ok(pf) => {
                &&& digests@.len() == batch_opening_proof.claimed_values@.len()
                &&& pf.0.h@ == batch_opening_proof.h@
                &&& pf.0.claimed_value@ == spec_fold_proof(
                    point_views(digests@),
                    scalar_views(batch_opening_proof.claimed_values@),
                    point@,
                    opt_bytes_view(*extra_data),
                ).1
                &&& pf.1@ == spec_fold_proof(
                    point_views(digests@),
                    scalar_views(batch_opening_proof.claimed_values@),
                    point@,
                    opt_bytes_view(*extra_data),
                ).0
            },
            Err(e) => {
                &&& e == KzgError::InvalidNumberOfDigests
                &&& digests@.len() != batch_opening_proof.claimed_values@.len()
            },
        },
{
    let nb_digests = digests.len();
    if nb_digests != batch_opening_proof.claimed_values.len() {
        return Err(KzgError::InvalidNumberOfDigests);
    }
    let gamma = derive_gamma(point, digests, &batch_opening_proof.claimed_values, extra_data);
    let gammai = scalar_powers(&gamma, nb_digests);
    let folded = fold(digests, &batch_opening_proof.claimed_values, &gammai);
    match folded {
        Ok(fd) => {
            let open_proof = OpeningProof {
                h: batch_opening_proof.h.duplicate(),
                claimed_value: fd.1,
            };
            Ok((open_proof, fd.0))
        },
        Err(e) => {
            proof {
                assert(false);
            }
            Err(e)
        },
    }
}

/// Decides several opening claims, each at its own point, with a single
/// pairing equation. Exactly one claim is decided by the direct single
/// opening check; two or more are combined with weights that are consecutive
/// powers of a Fiat-Shamir challenge bound to every point, digest, claimed
/// value, and quotient, so no party choosing those inputs can predict the
/// combination. Success means the pairing equation holds; a failed equation
/// is reported as `PairingCheckFailed`, and disagreeing sequence lengths as
/// `InvalidNumberOfDigests` before any group work. At least one digest,
/// proof, or point must be present: there is nothing to decide about an
/// entirely empty batch.
pub fn batch_verify_multi_points(
    digests: &Vec<G1Point>,
    proofs: &Vec<OpeningProof>,
    points: &Vec<Scalar>,
    vk: &KzgVerifyingKey,
) -> (r: Result<(), KzgError>)
    requires
        digests@.len() >= 1 || proofs@.len() >= 1 || points@.len() >= 1,
    ensures
        match r {
            Ok(u) => {
                &&& digests@.len() == proofs@.len()
                &&& digests@.len() == points@.len()
                &&& spec_batch_check(
                    point_views(digests@),
                    quotient_views(proofs@),
                    value_views(proofs@),
                    scalar_views(points@),
                    vk.g1@,
                    vk.g2_gen@,
                    vk.g2_alpha@,
                )
            },
            Err(e) => {
                ||| {
                    &&& e == KzgError::InvalidNumberOfDigests
                    &&& !(digests@.len() == proofs@.len() && digests@.len() == points@.len())
                }
                ||| {
                    &&& e == KzgError::PairingCheckFailed
                    &&& digests@.len() == proofs@.len()
                    &&& digests@.len() == points@.len()
                    &&& !spec_batch_check(
                        point_views(digests@),
                        quotient_views(proofs@),
                        value_views(proofs@),
                        scalar_views(points@),
                        vk.g1@,
                        vk.g2_gen@,
                        vk.g2_alpha@,
                    )
                }
            },
        },
{
    let nb_digests = digests.len();
    if nb_digests != proofs.len() {
        return Err(KzgError::InvalidNumberOfDigests);
    }
    if nb_digests != points.len() {
        return Err(KzgError::InvalidNumberOfDigests);
    }
    if nb_digests == 1 {
        let value_commit = g1_mul(&vk.g1, &proofs[0].claimed_value);
        let shifted = g1_sub(&digests[0], &value_commit);
        let weighted_quotient = g1_mul(&proofs[0].h, &points[0]);
        let f = g1_add(&shifted, &weighted_quotient);
        let neg_quotient = g1_neg(&proofs[0].h);
        if pairing_two_is_one(&f, &vk.g2_gen, &neg_quotient, &vk.g2_alpha) {
            return Ok(());
        } else {
            return Err(KzgError::PairingCheckFailed);
        }
    }
    let rho = derive_rho(points, digests, proofs);
    let weights = scalar_powers(&rho, nb_digests);
    let mut quotients: Vec<G1Point> = Vec::new();
    let mut evals: Vec<Scalar> = Vec::new();
    let mut i: usize = 0;
    while i < nb_digests
        invariant
            i <= nb_digests,
            nb_digests == proofs@.len(),
            quotients@.len() == i,
            evals@.len() == i,
            forall|j: int| 0 <= j < i ==> #[trigger] quotients@[j]@ == proofs@[j].h@,
            forall|j: int| 0 <= j < i ==> #[trigger] evals@[j]@ == proofs@[j].claimed_value@,
        decreases nb_digests - i,
    {
        quotients.push(proofs[i].h.duplicate());
        evals.push(proofs[i].claimed_value.duplicate());
        i += 1;
    }
    proof {
        assert(point_views(quotients@) =~= quotient_views(proofs@));
        assert(scalar_views(evals@) =~= value_views(proofs@));
    }
    let folded_quotients = msm(&quotients, &weights);
    let folded = fold(digests, &evals, &weights);
    let (folded_digests, folded_evals) = match folded {
        Ok(fd) => fd,
        Err(_) => {
            proof {
                assert(false);
            }
            return Err(KzgError::InvalidNumberOfDigests);
        },
    };
    let evals_commit = g1_mul(&vk.g1, &folded_evals);
    let shifted_digests = g1_sub(&folded_digests, &evals_commit);
    let mut reweighted: Vec<Scalar> = Vec::new();
    let mut k: usize = 0;
    while k < nb_digests
        invariant
            k <= nb_digests,
            nb_digests == points@.len(),
            weights@.len() == nb_digests,
            reweighted@.len() == k,
            forall|j: int| 0 <= j < k ==> #[trigger] reweighted@[j]@ == (weights@[j]@ * points@[j]@)
                % scalar_modulus(),
        decreases nb_digests - k,
    {
        reweighted.push(scalar_mul(&weights[k], &points[k]));
        k += 1;
    }
    proof {
        assert(scalar_views(reweighted@) =~= Seq::new(
            nb_digests as nat,
            |j: int| (scalar_views(weights@)[j] * scalar_views(points@)[j]) % scalar_modulus(),
        ));
    }
    let folded_points_quotients = msm(&quotients, &reweighted);
    let f = g1_add(&shifted_digests, &folded_points_quotients);
    let neg_quotients = g1_neg(&folded_quotients);
    if pairing_two_is_one(&f, &vk.g2_gen, &neg_quotients, &vk.g2_alpha) {
        Ok(())
    } else {
        Err(KzgError::PairingCheckFailed)
    }
}

proof fn lemma_bind_all_len(l: Seq<u8>, items: Seq<Seq<u8>>, k: nat)
    requires
        forall|i: int| 0 <= i < items.len() ==> (#[trigger] items[i]).len() == k,
    ensures
        spec_bind_all(l, items).len() == items.len() * (l.len() + k),
    decreases items.len(),
{
    if items.len() > 0 {
        lemma_bind_all_len(l, items.drop_last(), k);
        let n = items.len() as int;
        let c = l.len() + k;
        assert((n - 1) * c + c == n * c) by (nonlinear_arith);
    }
}

/// Binding a sequence of same-size byte strings under one label is
/// injective: equal transcripts mean equal sequences.
proof fn lemma_bind_all_injective(l: Seq<u8>, a: Seq<Seq<u8>>, b: Seq<Seq<u8>>, k: nat)
    requires
        a.len() == b.len(),
        forall|i: int| 0 <= i < a.len() ==> (#[trigger] a[i]).len() == k,
        forall|i: int| 0 <= i < b.len() ==> (#[trigger] b[i]).len() == k,
        spec_bind_all(l, a) == spec_bind_all(l, b),
    ensures
        a == b,
    decreases a.len(),
{
    if a.len() > 0 {
        let ba = spec_bind_all(l, a);
        let bb = spec_bind_all(l, b);
        let ra = spec_bind_all(l, a.drop_last());
        let rb = spec_bind_all(l, b.drop_last());
        lemma_bind_all_len(l, a.drop_last(), k);
        lemma_bind_all_len(l, b.drop_last(), k);
        assert(ra.len() == rb.len());
        assert(a.last() =~= ba.subrange(ba.len() - k, ba.len() as int));
        assert(b.last() =~= bb.subrange(bb.len() - k, bb.len() as int));
        assert(ra =~= ba.subrange(0, ra.len() as int));
        assert(rb =~= bb.subrange(0, rb.len() as int));
        lemma_bind_all_injective(l, a.drop_last(), b.drop_last(), k);
        assert(a.last() == b.last());
        assert(a.drop_last() == b.drop_last());
        assert forall|i: int| 0 <= i < a.len() implies a[i] == b[i] by {
            if i < a.len() - 1 {
                assert(a[i] == a.drop_last()[i]);
                assert(b[i] == b.drop_last()[i]);
            } else {
                assert(a[i] == a.last());
                assert(b[i] == b.last());
            }
        }
        assert(a =~= b);
    }
}

/// Order sensitivity of the challenge derivation: two different digest
/// sequences — in particular one with two digests swapped — feed different
/// byte strings to the challenge hash, with the point, claimed values, and
/// auxiliary bytes held fixed. The derived challenges themselves then differ
/// whenever the hash maps the two inputs apart.
pub proof fn lemma_gamma_binding_order_sensitive(
    point: int,
    ds1: Seq<Seq<u8>>,
    ds2: Seq<Seq<u8>>,
    vs: Seq<int>,
    aux: Option<Seq<u8>>,
)
    requires
        ds1.len() == ds2.len(),
        forall|i: int| 0 <= i < ds1.len() ==> (#[trigger] ds1[i]).len() == 64,
        forall|i: int| 0 <= i < ds2.len() ==> (#[trigger] ds2[i]).len() == 64,
        ds1 != ds2,
    ensures
        spec_gamma_input(point, ds1, vs, aux) != spec_gamma_input(point, ds2, vs, aux),
{
    let l = spec_gamma_label();
    let pre = l + be_bytes(point, 32);
    let b1 = spec_bind_all(l, ds1);
    let b2 = spec_bind_all(l, ds2);
    let suf = spec_bind_all(l, spec_scalar_bytes(vs)) + (match aux {
        Some(a) => l + a,
        None => Seq::<u8>::empty(),
    }) + l;
    let w1 = spec_gamma_input(point, ds1, vs, aux);
    let w2 = spec_gamma_input(point, ds2, vs, aux);
    assert(w1 =~= pre + b1 + suf);
    assert(w2 =~= pre + b2 + suf);
    lemma_be_bytes_len(point, 32);
    lemma_bind_all_len(l, ds1, 64);
    lemma_bind_all_len(l, ds2, 64);
    if w1 == w2 {
        assert(b1 =~= w1.subrange(pre.len() as int, (pre.len() + b1.len()) as int));
        assert(b2 =~= w2.subrange(pre.len() as int, (pre.len() + b2.len()) as int));
        lemma_bind_all_injective(l, ds1, ds2, 64);
    }
}

/// Fold determinism: the Fiat-Shamir challenge, the folded digest, and the
/// folded evaluation are functions of the digests, claimed values, point, and
/// auxiliary bytes alone — two derivations from equal inputs agree.
pub proof fn lemma_fold_proof_deterministic(
    ds1: Seq<Seq<u8>>,
    vs1: Seq<int>,
    z1: int,
    aux1: Option<Seq<u8>>,
    ds2: Seq<Seq<u8>>,
    vs2: Seq<int>,
    z2: int,
    aux2: Option<Seq<u8>>,
)
    requires
        ds1 == ds2,
        vs1 == vs2,
        z1 == z2,
        aux1 == aux2,
    ensures
        spec_derive_gamma(z1, ds1, vs1, aux1) == spec_derive_gamma(z2, ds2, vs2, aux2),
        spec_fold_proof(ds1, vs1, z1, aux1) == spec_fold_proof(ds2, vs2, z2, aux2),
{
}

/// Fold linearity: with the all-ones weight vector, folding is the plain
/// unweighted sum — of the digests in the group, and of the evaluations in
/// the field.
pub proof fn lemma_fold_all_ones(ds: Seq<Seq<u8>>, vs: Seq<int>, ws: Seq<int>)
    requires
        ws.len() == ds.len(),
        vs.len() == ds.len(),
        forall|i: int| 0 <= i < ws.len() ==> #[trigger] ws[i] == 1,
        forall|i: int| 0 <= i < vs.len() ==> 0 <= #[trigger] vs[i] < scalar_modulus(),
    ensures
        spec_msm(ds, ws) == spec_g1_sum(ds),
        spec_dot(vs, ws) == spec_sum_mod(vs),
    decreases ds.len(),
{
    if ds.len() > 0 {
        lemma_fold_all_ones(ds.drop_last(), vs.drop_last(), ws.drop_last());
        assert(spec_g1_scale(ds.last(), ws.last()) == ds.last());
        lemma_small_mod(vs.last() as nat, scalar_modulus() as nat);
    }
}

/// Weight anchoring: every weight vector the protocols build gives the first
/// term weight one, so the first claim enters the combination unscaled.
pub proof fn lemma_weights_anchored(x: int, n: nat)
    requires
        n > 0,
    ensures
        spec_powers(x, n)[0] == 1,
{
}

} // verus!
