//! The digest that the exchange hashes with.
use vstd::prelude::*;

verus! {

/// A hash function for the exchange: `digest` maps bytes to a fixed-length
/// digest, and `spec_digest` is the function it computes.
pub trait SrpDigest {
    spec fn spec_digest(data: Seq<u8>) -> Seq<u8>;

    fn digest(data: &[u8]) -> (r: Vec<u8>)
        ensures
            r@ == Self::spec_digest(data@),
    ;
}

/// The SHA-256 digest of a byte string.
pub uninterp spec fn sha256_of(data: Seq<u8>) -> Seq<u8>;

/// Relies on `sha2::Sha256` through `digest::Digest::digest`: a 32-byte digest
/// that depends on the input bytes alone.
#[verifier::external_body]
fn sha256(data: &[u8]) -> (r: Vec<u8>)
    ensures
        r@ == sha256_of(data@),
        r@.len() == 32,
{
    <sha2::Sha256 as digest::Digest>::digest(data).to_vec()
}

/// SHA-256.
pub struct Sha256;

impl SrpDigest for Sha256 {
    open spec fn spec_digest(data: Seq<u8>) -> Seq<u8> {
        sha256_of(data)
    }

    fn digest(data: &[u8]) -> (r: Vec<u8>) {
        sha256(data)
    }
}

/// Appends `src` to `out`.
pub fn append_bytes(out: &mut Vec<u8>, src: &[u8])
    ensures
        final(out)@ == old(out)@ + src@,
{
    let mut i: usize = 0;
    while i < src.len()
        invariant
            i <= src@.len(),
            out@ == old(out)@ + src@.subrange(0, i as int),
        decreases src@.len() - i,
    {
        out.push(src[i]);
        i = i + 1;
        proof {
            assert(out@ =~= old(out)@ + src@.subrange(0, i as int));
        }
    }
    proof {
        assert(src@.subrange(0, src@.len() as int) =~= src@);
    }
}

} // verus!
