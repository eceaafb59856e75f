//! A Fiat-Shamir transcript: ordered byte strings bound under labels, hashed
//! into a deterministic challenge.
//!
//! The transcript itself is verified byte-for-byte; only the hash at the end
//! is delegated, to SHA-256 from the `sha2` crate.

use vstd::prelude::*;

use sha2::Digest;

verus! {

/// The SHA-256 digest of a byte string.
pub uninterp spec fn spec_sha256(data: Seq<u8>) -> Seq<u8>;

/// Relies on `sha2::Sha256`: the digest depends on the input bytes alone and
/// is 32 bytes long.
#[verifier::external_body]
pub fn sha256(data: &Vec<u8>) -> (r: Vec<u8>)
    ensures
        r@ == spec_sha256(data@),
        r@.len() == 32,
{
    sha2::Sha256::digest(data.as_slice()).to_vec()
}

/// A transcript accumulates every bound label and byte string, in order;
/// a challenge is the hash of everything bound so far plus the challenge's
/// own label.
pub struct Transcript {
    buf: Vec<u8>,
}

impl View for Transcript {
    type V = Seq<u8>;

    closed spec fn view(&self) -> Seq<u8> {
        self.buf@
    }
}

impl Transcript {
    /// A fresh transcript with nothing bound.
    pub fn new() -> (r: Transcript)
        ensures
            r@ == Seq::<u8>::empty(),
    {
        let t = Transcript { buf: Vec::new() };
        proof {
            assert(t@ =~= Seq::<u8>::empty());
        }
        t
    }

    /// Binds a byte string under a label: both are appended to the
    /// transcript, label first.
    pub fn bind(&mut self, label: &Vec<u8>, data: &Vec<u8>)
        ensures
            final(self)@ == old(self)@ + label@ + data@,
    {
        let mut i: usize = 0;
        while i < label.len()
            invariant
                i <= label@.len(),
                self@ =~= old(self)@ + label@.take(i as int),
            decreases label@.len() - i,
        {
            let byte = label[i];
            self.buf.push(byte);
            i += 1;
            proof {
                assert(self@ =~= old(self)@ + label@.take(i as int));
            }
        }
        let mut j: usize = 0;
        while j < data.len()
            invariant
                j <= data@.len(),
                self@ =~= old(self)@ + label@ + data@.take(j as int),
            decreases data@.len() - j,
        {
            let byte = data[j];
            self.buf.push(byte);
            j += 1;
            proof {
                assert(self@ =~= old(self)@ + label@ + data@.take(j as int));
            }
        }
        proof {
            assert(self@ =~= old(self)@ + label@ + data@);
        }
    }

    /// The challenge for a label: the hash of the transcript contents
    /// followed by that label.
    pub fn compute_challenge(&self, label: &Vec<u8>) -> (r: Vec<u8>)
        ensures
            r@ == spec_sha256(self@ + label@),
            r@.len() == 32,
    {
        let mut input: Vec<u8> = Vec::new();
        let mut i: usize = 0;
        while i < self.buf.len()
            invariant
                i <= self.buf@.len(),
                input@ =~= self.buf@.take(i as int),
            decreases self.buf@.len() - i,
        {
            let byte = self.buf[i];
            input.push(byte);
            i += 1;
            proof {
                assert(input@ =~= self.buf@.take(i as int));
            }
        }
        let mut j: usize = 0;
        while j < label.len()
            invariant
                j <= label@.len(),
                input@ =~= self.buf@ + label@.take(j as int),
            decreases label@.len() - j,
        {
            let byte = label[j];
            input.push(byte);
            j += 1;
            proof {
                assert(input@ =~= self.buf@ + label@.take(j as int));
            }
        }
        proof {
            assert(input@ =~= self@ + label@);
        }
        sha256(&input)
    }
}

} // verus!
