//! Elements of the BN254 scalar field, held in canonical big-endian bytes.
//!
//! A `Scalar` is viewed as the integer its 32 bytes encode; that integer is
//! always below the field order. Field arithmetic is delegated to the
//! `substrate_bn` backend through trusted wrappers whose contracts state the
//! result as modular integer arithmetic.

use vstd::prelude::*;

verus! {

/// The order of the BN254 scalar field: every scalar is an integer below it.
pub open spec fn scalar_modulus() -> int {
    0x30644e72e131a029b85045b68181585dint * 0x10000000000000000 * 0x10000000000000000
        + 0x2833e84879b9709143e1f593f0000001
}

/// Big-endian integer value of a byte string.
pub open spec fn be_int(s: Seq<u8>) -> int
    decreases s.len(),
{
    if s.len() == 0 {
        0
    } else {
        be_int(s.drop_last()) * 256 + s.last()
    }
}

/// The `n`-byte big-endian encoding of `x` (for `x` in `[0, 256^n)`).
pub open spec fn be_bytes(x: int, n: nat) -> Seq<u8>
    decreases n,
{
    if n == 0 {
        Seq::empty()
    } else {
        be_bytes(x / 256, (n - 1) as nat) + seq![(x % 256) as u8]
    }
}

/// A byte string of `n` zero bytes.
pub open spec fn zero_bytes(n: nat) -> Seq<u8> {
    Seq::new(n, |i: int| 0u8)
}

pub proof fn lemma_be_int_zero_bytes(n: nat)
    ensures
        be_int(zero_bytes(n)) == 0,
    decreases n,
{
    if n > 0 {
        lemma_be_int_zero_bytes((n - 1) as nat);
        assert(zero_bytes(n).drop_last() =~= zero_bytes((n - 1) as nat));
    }
}

pub proof fn lemma_be_bytes_len(x: int, n: nat)
    ensures
        be_bytes(x, n).len() == n,
    decreases n,
{
    if n > 0 {
        lemma_be_bytes_len(x / 256, (n - 1) as nat);
    }
}

pub proof fn lemma_be_int_nonneg(s: Seq<u8>)
    ensures
        0 <= be_int(s),
    decreases s.len(),
{
    if s.len() > 0 {
        lemma_be_int_nonneg(s.drop_last());
    }
}

/// Decoding a byte string and re-encoding it at its own length gives it back.
pub proof fn lemma_be_bytes_roundtrip(s: Seq<u8>)
    ensures
        be_bytes(be_int(s), s.len()) == s,
    decreases s.len(),
{
    if s.len() > 0 {
        lemma_be_bytes_roundtrip(s.drop_last());
        lemma_be_int_nonneg(s.drop_last());
        let hi = be_int(s.drop_last());
        let lo = s.last() as int;
        assert((hi * 256 + lo) / 256 == hi && (hi * 256 + lo) % 256 == lo) by (nonlinear_arith)
            requires
                0 <= hi,
                0 <= lo < 256,
        ;
        assert(be_bytes(be_int(s), s.len()) =~= s);
    }
}

/// An element of the scalar field, stored as 32 canonical big-endian bytes.
pub struct Scalar {
    pub(crate) b: Vec<u8>,
}

impl Scalar {
    #[verifier::type_invariant]
    spec fn well_formed(self) -> bool {
        self.b@.len() == 32 && 0 <= be_int(self.b@) < scalar_modulus()
    }

    /// The additive identity of the field.
    pub fn zero() -> (r: Scalar)
        ensures
            r@ == 0,
    {
        let mut b: Vec<u8> = Vec::new();
        let mut i: usize = 0;
        while i < 32
            invariant
                i <= 32,
                b@ =~= zero_bytes(i as nat),
            decreases 32 - i,
        {
            b.push(0);
            i += 1;
            proof {
                assert(b@ =~= zero_bytes(i as nat));
            }
        }
        proof {
            lemma_be_int_zero_bytes(32);
        }
        Scalar { b }
    }

    /// The multiplicative identity of the field.
    pub fn one() -> (r: Scalar)
        ensures
            r@ == 1,
    {
        let mut b: Vec<u8> = Vec::new();
        let mut i: usize = 0;
        while i < 31
            invariant
                i <= 31,
                b@ =~= zero_bytes(i as nat),
            decreases 31 - i,
        {
            b.push(0);
            i += 1;
            proof {
                assert(b@ =~= zero_bytes(i as nat));
            }
        }
        b.push(1);
        proof {
            lemma_be_int_zero_bytes(31);
            assert(b@.drop_last() =~= zero_bytes(31));
        }
        Scalar { b }
    }

    /// The canonical 32-byte big-endian encoding of this scalar.
    pub fn to_be_bytes(&self) -> (r: Vec<u8>)
        ensures
            r@ == be_bytes(self@, 32),
    {
        proof {
            use_type_invariant(self);
        }
        let mut r: Vec<u8> = Vec::new();
        let mut i: usize = 0;
        while i < self.b.len()
            invariant
                i <= self.b@.len(),
                r@ =~= self.b@.take(i as int),
            decreases self.b@.len() - i,
        {
            let byte = self.b[i];
            r.push(byte);
            i += 1;
            proof {
                assert(r@ =~= self.b@.take(i as int));
            }
        }
        proof {
            assert(r@ =~= self.b@);
            lemma_be_bytes_roundtrip(self.b@);
        }
        r
    }

    /// A copy of this scalar with the same value.
    pub fn duplicate(&self) -> (r: Scalar)
        ensures
            r@ == self@,
    {
        proof {
            use_type_invariant(self);
        }
        let mut b: Vec<u8> = Vec::new();
        let mut i: usize = 0;
        while i < self.b.len()
            invariant
                i <= self.b@.len(),
                b@ =~= self.b@.take(i as int),
            decreases self.b@.len() - i,
        {
            let byte = self.b[i];
            b.push(byte);
            i += 1;
            proof {
                assert(b@ =~= self.b@.take(i as int));
            }
        }
        proof {
            assert(b@ =~= self.b@);
        }
        Scalar { b }
    }

    /// Canonical reduction of 32 bytes, read big-endian, into the field.
    ///
    /// Relies on `substrate_bn::Fr::interpret`, which reduces a big-endian
    /// integer modulo the field order, and on `Fr::into_u256` together with
    /// `U256::to_big_endian`, which write the canonical value back out.
    #[verifier::external_body]
    pub fn from_bytes_reduced(bytes: &Vec<u8>) -> (r: Scalar)
        requires
            bytes@.len() == 32,
        ensures
            r@ == be_int(bytes@) % scalar_modulus(),
    {
        let mut buf = [0u8; 64];
        buf[32..64].copy_from_slice(bytes.as_slice());
        let f = substrate_bn::Fr::interpret(&buf);
        let mut out = [0u8; 32];
        f.into_u256().to_big_endian(&mut out).unwrap();
        Scalar { b: out.to_vec() }
    }
}

impl View for Scalar {
    type V = int;

    closed spec fn view(&self) -> int {
        be_int(self.b@)
    }
}

/// Field addition.
///
/// Relies on `substrate_bn::Fr`'s `Add`, which adds modulo the field order,
/// with `Fr::from_slice` reading and `Fr::into_u256`/`U256::to_big_endian`
/// writing the canonical big-endian value.
#[verifier::external_body]
pub fn scalar_add(a: &Scalar, b: &Scalar) -> (r: Scalar)
    ensures
        r@ == (a@ + b@) % scalar_modulus(),
{
    let fa = substrate_bn::Fr::from_slice(&a.b).unwrap();
    let fb = substrate_bn::Fr::from_slice(&b.b).unwrap();
    let mut out = [0u8; 32];
    (fa + fb).into_u256().to_big_endian(&mut out).unwrap();
    Scalar { b: out.to_vec() }
}

/// Field multiplication.
///
/// Relies on `substrate_bn::Fr`'s `Mul`, which multiplies modulo the field
/// order, with the same canonical byte conversions as `scalar_add`.
#[verifier::external_body]
pub fn scalar_mul(a: &Scalar, b: &Scalar) -> (r: Scalar)
    ensures
        r@ == (a@ * b@) % scalar_modulus(),
{
    let fa = substrate_bn::Fr::from_slice(&a.b).unwrap();
    let fb = substrate_bn::Fr::from_slice(&b.b).unwrap();
    let mut out = [0u8; 32];
    (fa * fb).into_u256().to_big_endian(&mut out).unwrap();
    Scalar { b: out.to_vec() }
}

} // verus!
