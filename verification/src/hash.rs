//! The digest that every part of the scheme passes around.

use vstd::prelude::*;
use vstd::std_specs::cmp::PartialEqSpecImpl;
use vstd::std_specs::iter::IteratorSpec;
use crate::wire::take_bytes;

verus! {

/// A digest of 32 bytes. Two digests are equal when their bytes are.
#[derive(Clone, Copy, Debug)]
pub struct Hash {
    pub h: [u8; 32],
}

impl View for Hash {
    type V = Seq<u8>;

    open spec fn view(&self) -> Seq<u8> {
        self.h@
    }
}

/// The bytes of each digest of a sequence.
pub open spec fn digests(hashes: Seq<Hash>) -> Seq<Seq<u8>> {
    Seq::new(hashes.len(), |i: int| hashes[i]@)
}

/// Digests with the same bytes are the same digest.
pub proof fn lemma_hash_by_bytes(a: Hash, b: Hash)
    requires
        a@ == b@,
    ensures
        a == b,
{
    assert(a.h =~= b.h);
}

impl PartialEq for Hash {
    fn eq(&self, other: &Hash) -> (r: bool) {
        let mut i: usize = 0;
        while i < 32
            invariant
                i <= 32,
                forall|j: int| 0 <= j < i ==> self.h@[j] == other.h@[j],
            decreases 32 - i,
        {
            if self.h[i] != other.h[i] {
                return false;
            }
            i += 1;
        }
        proof {
            assert(self.h@ =~= other.h@);
            lemma_hash_by_bytes(*self, *other);
        }
        true
    }
}

impl Eq for Hash {

}

impl PartialEqSpecImpl for Hash {
    open spec fn obeys_eq_spec() -> bool {
        true
    }

    open spec fn eq_spec(&self, other: &Hash) -> bool {
        *self == *other
    }
}

impl Hash {
    /// The digest with the given bytes.
    pub fn new(h: [u8; 32]) -> (r: Hash)
        ensures
            r.h == h,
    {
        Hash { h }
    }

    /// Appends the 32 bytes of the digest to `output`.
    pub fn serialize(&self, output: &mut Vec<u8>)
        ensures
            final(output)@ == old(output)@ + self@,
    {
        let mut i: usize = 0;
        while i < 32
            invariant
                i <= 32,
                output@ == old(output)@ + self@.take(i as int),
            decreases 32 - i,
        {
            output.push(self.h[i]);
            proof {
                assert(self@.take(i + 1) =~= self@.take(i as int).push(self@[i as int]));
                assert(output@ =~= old(output)@ + self@.take(i + 1));
            }
            i += 1;
        }
        proof {
            assert(self@.take(32) =~= self@);
        }
    }

    /// Reads a digest off the next 32 bytes of the stream.
    ///
    /// Fails when the stream ends before that, and only then.
    pub fn deserialize<'a, I: Iterator<Item = &'a u8>>(it: &mut I) -> (r: Option<Hash>)
        ensures
            (*final(it)).obeys_prophetic_iter_laws() == (*old(it)).obeys_prophetic_iter_laws(),
            (*old(it)).obeys_prophetic_iter_laws() ==> match r {
                Some(hash) => {
                    &&& 32 <= (*old(it)).remaining().len()
                    &&& hash@ == (*old(it)).remaining().unref().take(32)
                    &&& (*final(it)).remaining() == (*old(it)).remaining().skip(32)
                },
                None => {
                    &&& (*old(it)).remaining().len() < 32
                    &&& (*final(it)).remaining().len() == 0
                },
            },
    {
        match take_bytes(it, 32) {
            Some(bytes) => Some(Hash::from_bytes(&bytes)),
            None => None,
        }
    }

    /// The digest whose bytes are the 32 bytes of `bytes`.
    pub fn from_bytes(bytes: &Vec<u8>) -> (r: Hash)
        requires
            bytes@.len() == 32,
        ensures
            r@ == bytes@,
    {
        let mut h: [u8; 32] = [0u8; 32];
        let mut i: usize = 0;
        while i < 32
            invariant
                i <= 32,
                bytes@.len() == 32,
                forall|j: int| 0 <= j < i ==> h@[j] == bytes@[j],
            decreases 32 - i,
        {
            h[i] = bytes[i];
            i += 1;
        }
        proof {
            assert(h@ =~= bytes@);
        }
        Hash { h }
    }
}

} // verus!
