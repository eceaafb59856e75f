//! Points of the BN254 groups G1 and G2, held as canonical coordinate bytes.
//!
//! A `G1Point` is viewed as its 64-byte uncompressed encoding (x then y, each
//! 32 big-endian bytes), with the group identity encoded as all zeros — a pair
//! of zero coordinates lies on no BN254 curve, so the encoding is unambiguous.
//! Group arithmetic is delegated to the `substrate_bn` backend through trusted
//! wrappers; their results are named by uninterpreted functions, since curve
//! arithmetic itself is not restated here.

use vstd::prelude::*;

use crate::scalar::{zero_bytes, Scalar};
use substrate_bn::{AffineG1, AffineG2, Fq, Fq2, Fr, Group};

verus! {

/// Whether 64 bytes are the coordinates of a point on the G1 curve.
pub uninterp spec fn spec_g1_valid(p: Seq<u8>) -> bool;

/// Whether four 32-byte coordinates form a point of the G2 subgroup.
pub uninterp spec fn spec_g2_valid(p: Seq<u8>) -> bool;

/// The G1 group sum of the points two encodings stand for.
pub uninterp spec fn spec_g1_add(a: Seq<u8>, b: Seq<u8>) -> Seq<u8>;

/// The G1 group difference of the points two encodings stand for.
pub uninterp spec fn spec_g1_sub(a: Seq<u8>, b: Seq<u8>) -> Seq<u8>;

/// The G1 group negation of the point an encoding stands for.
pub uninterp spec fn spec_g1_neg(a: Seq<u8>) -> Seq<u8>;

/// The G1 point `c` times the point `p` stands for, for `c` other than one.
pub uninterp spec fn spec_g1_mul(p: Seq<u8>, c: int) -> Seq<u8>;

/// Whether `e(a1, b1) * e(a2, b2)` is the identity of the pairing target group.
pub uninterp spec fn spec_pairing_two_is_one(a1: Seq<u8>, b1: Seq<u8>, a2: Seq<u8>, b2: Seq<u8>) -> bool;

/// Scalar multiplication on G1. Multiplying by one returns the point itself,
/// so that fact is available definitionally; every other factor goes through
/// the uninterpreted `spec_g1_mul`.
pub open spec fn spec_g1_scale(p: Seq<u8>, c: int) -> Seq<u8> {
    if c == 1 {
        p
    } else {
        spec_g1_mul(p, c)
    }
}

/// The encoding of the G1 identity.
pub open spec fn g1_identity_bytes() -> Seq<u8> {
    zero_bytes(64)
}

/// A point of G1: the identity, or a pair of canonical affine coordinates.
pub struct G1Point {
    pub(crate) infinity: bool,
    pub(crate) x: Vec<u8>,
    pub(crate) y: Vec<u8>,
}

impl G1Point {
    #[verifier::type_invariant]
    spec fn well_formed(self) -> bool {
        !self.infinity ==> self.x@.len() == 32 && self.y@.len() == 32 && spec_g1_valid(
            self.x@ + self.y@,
        )
    }

    /// The identity of the group.
    pub fn identity() -> (r: G1Point)
        ensures
            r@ == g1_identity_bytes(),
    {
        G1Point { infinity: true, x: Vec::new(), y: Vec::new() }
    }

    /// A point from its two 32-byte big-endian affine coordinates; `None`
    /// exactly when the bytes are not the coordinates of a curve point.
    ///
    /// Relies on `substrate_bn::AffineG1::new`, which accepts exactly the
    /// on-curve coordinate pairs, and `Fq::from_slice`, which accepts exactly
    /// the canonical base-field encodings.
    #[verifier::external_body]
    pub fn from_coords(x: &Vec<u8>, y: &Vec<u8>) -> (r: Option<G1Point>)
        requires
            x@.len() == 32,
            y@.len() == 32,
        ensures
            match r {
                Some(p) => p@ == x@ + y@ && spec_g1_valid(x@ + y@),
                None => !spec_g1_valid(x@ + y@),
            },
    {
        let fx = match Fq::from_slice(x) { Ok(v) => v, Err(_) => return None };
        let fy = match Fq::from_slice(y) { Ok(v) => v, Err(_) => return None };
        match AffineG1::new(fx, fy) {
            Ok(_) => Some(G1Point { infinity: false, x: x.clone(), y: y.clone() }),
            Err(_) => None,
        }
    }

    /// The 64-byte encoding of this point.
    pub fn to_bytes(&self) -> (r: Vec<u8>)
        ensures
            r@ == self@,
    {
        proof {
            use_type_invariant(self);
        }
        let mut r: Vec<u8> = Vec::new();
        if self.infinity {
            let mut i: usize = 0;
            while i < 64
                invariant
                    i <= 64,
                    r@ =~= zero_bytes(i as nat),
                decreases 64 - i,
            {
                r.push(0);
                i += 1;
                proof {
                    assert(r@ =~= zero_bytes(i as nat));
                }
            }
            proof {
                assert(r@ =~= zero_bytes(64));
            }
        } else {
            let mut i: usize = 0;
            while i < self.x.len()
                invariant
                    i <= self.x@.len(),
                    r@ =~= self.x@.take(i as int),
                decreases self.x@.len() - i,
            {
                let byte = self.x[i];
                r.push(byte);
                i += 1;
                proof {
                    assert(r@ =~= self.x@.take(i as int));
                }
            }
            let mut j: usize = 0;
            while j < self.y.len()
                invariant
                    j <= self.y@.len(),
                    r@ =~= self.x@ + self.y@.take(j as int),
                decreases self.y@.len() - j,
            {
                let byte = self.y[j];
                r.push(byte);
                j += 1;
                proof {
                    assert(r@ =~= self.x@ + self.y@.take(j as int));
                }
            }
            proof {
                assert(r@ =~= self.x@ + self.y@);
            }
        }
        r
    }

    /// A copy of this point with the same encoding.
    pub fn duplicate(&self) -> (r: G1Point)
        ensures
            r@ == self@,
    {
        proof {
            use_type_invariant(self);
        }
        if self.infinity {
            G1Point::identity()
        } else {
            let mut x: Vec<u8> = Vec::new();
            let mut i: usize = 0;
            while i < self.x.len()
                invariant
                    i <= self.x@.len(),
                    x@ =~= self.x@.take(i as int),
                decreases self.x@.len() - i,
            {
                let byte = self.x[i];
                x.push(byte);
                i += 1;
                proof {
                    assert(x@ =~= self.x@.take(i as int));
                }
            }
            let mut y: Vec<u8> = Vec::new();
            let mut j: usize = 0;
            while j < self.y.len()
                invariant
                    j <= self.y@.len(),
                    y@ =~= self.y@.take(j as int),
                decreases self.y@.len() - j,
            {
                let byte = self.y[j];
                y.push(byte);
                j += 1;
                proof {
                    assert(y@ =~= self.y@.take(j as int));
                }
            }
            proof {
                assert(x@ =~= self.x@);
                assert(y@ =~= self.y@);
            }
            G1Point { infinity: false, x, y }
        }
    }
}

impl View for G1Point {
    type V = Seq<u8>;

    closed spec fn view(&self) -> Seq<u8> {
        if self.infinity {
            zero_bytes(64)
        } else {
            self.x@ + self.y@
        }
    }
}

/// A point of the G2 subgroup, as four canonical 32-byte coordinates:
/// the real and imaginary part of x, then the real and imaginary part of y.
pub struct G2Point {
    pub(crate) x_re: Vec<u8>,
    pub(crate) x_im: Vec<u8>,
    pub(crate) y_re: Vec<u8>,
    pub(crate) y_im: Vec<u8>,
}

impl G2Point {
    #[verifier::type_invariant]
    spec fn well_formed(self) -> bool {
        self.x_re@.len() == 32 && self.x_im@.len() == 32 && self.y_re@.len() == 32
            && self.y_im@.len() == 32 && spec_g2_valid(self@)
    }

    /// A point from its four 32-byte big-endian coordinates; `None` exactly
    /// when the bytes are not the coordinates of a point of the G2 subgroup.
    ///
    /// Relies on `substrate_bn::AffineG2::new`, which accepts exactly the
    /// on-curve, in-subgroup coordinate pairs, and `Fq::from_slice`, which
    /// accepts exactly the canonical base-field encodings.
    #[verifier::external_body]
    pub fn from_coords(x_re: &Vec<u8>, x_im: &Vec<u8>, y_re: &Vec<u8>, y_im: &Vec<u8>) -> (r: Option<
        G2Point,
    >)
        requires
            x_re@.len() == 32,
            x_im@.len() == 32,
            y_re@.len() == 32,
            y_im@.len() == 32,
        ensures
            match r {
                Some(p) => p@ == x_re@ + x_im@ + y_re@ + y_im@ && spec_g2_valid(
                    x_re@ + x_im@ + y_re@ + y_im@,
                ),
                None => !spec_g2_valid(x_re@ + x_im@ + y_re@ + y_im@),
            },
    {
        let (a, b) = (Fq::from_slice(x_re), Fq::from_slice(x_im));
        let (c, d) = (Fq::from_slice(y_re), Fq::from_slice(y_im));
        if a.is_err() || b.is_err() || c.is_err() || d.is_err() {
            return None;
        }
        let x = Fq2::new(a.unwrap(), b.unwrap());
        let y = Fq2::new(c.unwrap(), d.unwrap());
        if AffineG2::new(x, y).is_err() {
            return None;
        }
        Some(G2Point { x_re: x_re.clone(), x_im: x_im.clone(), y_re: y_re.clone(), y_im: y_im.clone() })
    }
}

impl View for G2Point {
    type V = Seq<u8>;

    closed spec fn view(&self) -> Seq<u8> {
        self.x_re@ + self.x_im@ + self.y_re@ + self.y_im@
    }
}

#[verifier::external_type_specification]
#[verifier::external_body]
pub struct ExBackendG1(substrate_bn::G1);

#[verifier::external_type_specification]
#[verifier::external_body]
pub struct ExBackendG2(substrate_bn::G2);

/// Conversion into the backend's Jacobian representation; the identity
/// encoding maps to the backend's group zero.
#[verifier::external_body]
fn g1_to_backend(p: &G1Point) -> substrate_bn::G1 {
    if p.infinity {
        return substrate_bn::G1::zero();
    }
    let x = Fq::from_slice(&p.x).unwrap();
    let y = Fq::from_slice(&p.y).unwrap();
    substrate_bn::G1::from(AffineG1::new(x, y).unwrap())
}

/// Conversion out of the backend's Jacobian representation; the backend's
/// group zero maps to the identity encoding.
#[verifier::external_body]
fn g1_from_backend(p: substrate_bn::G1) -> G1Point {
    match AffineG1::from_jacobian(p) {
        None => G1Point { infinity: true, x: Vec::new(), y: Vec::new() },
        Some(a) => {
            let (mut x, mut y) = ([0u8; 32], [0u8; 32]);
            a.x().into_u256().to_big_endian(&mut x).unwrap();
            a.y().into_u256().to_big_endian(&mut y).unwrap();
            G1Point { infinity: false, x: x.to_vec(), y: y.to_vec() }
        },
    }
}

/// Conversion into the backend's Jacobian G2 representation.
#[verifier::external_body]
fn g2_to_backend(p: &G2Point) -> substrate_bn::G2 {
    let x = Fq2::new(Fq::from_slice(&p.x_re).unwrap(), Fq::from_slice(&p.x_im).unwrap());
    let y = Fq2::new(Fq::from_slice(&p.y_re).unwrap(), Fq::from_slice(&p.y_im).unwrap());
    substrate_bn::G2::from(AffineG2::new(x, y).unwrap())
}

/// Group addition on G1.
///
/// Relies on `substrate_bn::G1`'s `Add`, the group operation of G1.
#[verifier::external_body]
pub fn g1_add(a: &G1Point, b: &G1Point) -> (r: G1Point)
    ensures
        r@ == spec_g1_add(a@, b@),
{
    g1_from_backend(g1_to_backend(a) + g1_to_backend(b))
}

/// Group subtraction on G1.
///
/// Relies on `substrate_bn::G1`'s `Sub`, the group operation composed with
/// negation.
#[verifier::external_body]
pub fn g1_sub(a: &G1Point, b: &G1Point) -> (r: G1Point)
    ensures
        r@ == spec_g1_sub(a@, b@),
{
    g1_from_backend(g1_to_backend(a) - g1_to_backend(b))
}

/// Group negation on G1.
///
/// Relies on `substrate_bn::G1`'s `Neg`, the group inverse.
#[verifier::external_body]
pub fn g1_neg(a: &G1Point) -> (r: G1Point)
    ensures
        r@ == spec_g1_neg(a@),
{
    g1_from_backend(-g1_to_backend(a))
}

/// Scalar multiplication on G1.
///
/// Relies on `substrate_bn::G1`'s `Mul<Fr>`, scalar multiplication in the
/// group; multiplying by one returns the point unchanged, which the first
/// clause records through `spec_g1_scale`.
#[verifier::external_body]
pub fn g1_mul(p: &G1Point, c: &Scalar) -> (r: G1Point)
    ensures
        r@ == spec_g1_scale(p@, c@),
        c@ != 1 ==> r@ == spec_g1_mul(p@, c@),
{
    let f = Fr::from_slice(&c.b).unwrap();
    g1_from_backend(g1_to_backend(p) * f)
}

/// Whether the product of the two pairings is the identity of the target
/// group.
///
/// Relies on `substrate_bn::pairing_batch`, the product of bilinear pairings
/// over the listed pairs, and `Gt`'s `PartialEq` against `Gt::one()`.
#[verifier::external_body]
pub fn pairing_two_is_one(a1: &G1Point, b1: &G2Point, a2: &G1Point, b2: &G2Point) -> (r: bool)
    ensures
        r == spec_pairing_two_is_one(a1@, b1@, a2@, b2@),
{
    let pairs = [
        (g1_to_backend(a1), g2_to_backend(b1)),
        (g1_to_backend(a2), g2_to_backend(b2)),
    ];
    substrate_bn::pairing_batch(&pairs) == substrate_bn::Gt::one()
}

} // verus!
