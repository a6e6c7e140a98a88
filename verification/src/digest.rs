//! Content digests: a 256-bit fingerprint of an object's bytes, used to
//! detect out-of-band edits before a revert touches anything.

use vstd::prelude::*;
use sha2::{Digest, Sha256};

verus! {

/// What SHA-256 returns for the given bytes; the digest is a pure function
/// of its input, so the result only carries a name here.
pub uninterp spec fn sha256_of(bytes: Seq<u8>) -> Seq<u8>;

/// A 256-bit content fingerprint.
#[derive(Clone, Copy, Debug, PartialEq, Eq)]
pub struct ContentDigest(pub [u8; 32]);

impl View for ContentDigest {
    type V = Seq<u8>;

    open spec fn view(&self) -> Seq<u8> {
        self.0@
    }
}

impl ContentDigest {
    /// Whether the two digests hold the same bytes.
    pub fn matches(&self, other: &ContentDigest) -> (r: bool)
        ensures
            r == (self@ == other@),
    {
        let mut i: usize = 0;
        while i < 32
            invariant
                0 <= i <= 32,
                forall|k: int| 0 <= k < i ==> self@[k] == other@[k],
            decreases 32 - i,
        {
            if self.0[i] != other.0[i] {
                assert(self@[i as int] != other@[i as int]);
                return false;
            }
            i = i + 1;
        }
        proof {
            assert(self@ =~= other@);
        }
        true
    }
}

/// Relies on sha2's `Sha256::digest`: hashes the given bytes in one call;
/// the result is a function of the bytes alone and is 32 bytes long.
#[verifier::external_body]
fn sha256_raw(bytes: &[u8]) -> (r: [u8; 32])
    ensures
        r@ == sha256_of(bytes@),
{
    Sha256::digest(bytes).into()
}

/// Digest of a single object's bytes: a file's content fingerprint.
pub fn digest_bytes(bytes: &[u8]) -> (r: ContentDigest)
    ensures
        r@ == sha256_of(bytes@),
{
    ContentDigest(sha256_raw(bytes))
}

/// The file contents of a directory walk, as one flat byte sequence.
pub open spec fn spec_concat(parts: Seq<Seq<u8>>) -> Seq<u8>
    decreases parts.len(),
{
    if parts.len() == 0 {
        Seq::<u8>::empty()
    } else {
        spec_concat(parts.drop_last()) + parts.last()
    }
}

/// The byte sequences a vector of byte vectors holds.
pub open spec fn spec_parts_view(parts: &Vec<Vec<u8>>) -> Seq<Seq<u8>> {
    Seq::new(parts@.len(), |i: int| parts@[i]@)
}

/// Digest of a directory: the contents of its files, in walk order, hashed
/// as one stream.
pub fn hash_dir(parts: &Vec<Vec<u8>>) -> (r: ContentDigest)
    ensures
        r@ == sha256_of(spec_concat(spec_parts_view(parts))),
{
    let mut flat: Vec<u8> = Vec::new();
    let mut i: usize = 0;
    while i < parts.len()
        invariant
            0 <= i <= parts.len(),
            flat@ == spec_concat(spec_parts_view(parts).take(i as int)),
        decreases parts.len() - i,
    {
        proof {
            let pv = spec_parts_view(parts);
            assert(pv.take(i as int + 1).drop_last() =~= pv.take(i as int));
            assert(pv.take(i as int + 1).last() == pv[i as int]);
        }
        flat.extend_from_slice(parts[i].as_slice());
        i = i + 1;
    }
    proof {
        assert(spec_parts_view(parts).take(parts@.len() as int) =~= spec_parts_view(parts));
    }
    digest_bytes(flat.as_slice())
}

} // verus!
