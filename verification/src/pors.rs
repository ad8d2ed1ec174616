//! What this crate keeps of a few-time signature: its encoding.
//!
//! The few-time scheme makes and reads the value; the hypertree only carries
//! it from the signer into the signature and from the signature to the
//! verifier.

use vstd::prelude::*;
use vstd::std_specs::iter::IteratorSpec;
use crate::config::PORS_SIGN_BYTES;
use crate::wire::{copy_bytes, put_bytes, take_bytes};

verus! {

/// A few-time signature, held as the bytes of its encoding, which always
/// has the width `PORS_SIGN_BYTES`.
#[derive(Debug)]
pub struct Signature {
    bytes: Vec<u8>,
}

impl View for Signature {
    type V = Seq<u8>;

    closed spec fn view(&self) -> Seq<u8> {
        self.bytes@
    }
}

impl Signature {
    /// The encoding has the width of the parameter set.
    #[verifier::type_invariant]
    pub open spec fn wf(self) -> bool {
        self@.len() == PORS_SIGN_BYTES
    }

    /// The signature with the given encoding, if the encoding has the
    /// right width.
    pub fn from_bytes(bytes: Vec<u8>) -> (r: Option<Signature>)
        ensures
            r is Some <==> bytes@.len() == PORS_SIGN_BYTES,
            r matches Some(s) ==> s@ == bytes@,
    {
        if bytes.len() == PORS_SIGN_BYTES {
            Some(Signature { bytes })
        } else {
            None
        }
    }

    /// The encoding.
    pub fn as_bytes(&self) -> (r: &Vec<u8>)
        ensures
            r@ == self@,
            r@.len() == PORS_SIGN_BYTES,
    {
        proof {
            use_type_invariant(self);
        }
        &self.bytes
    }

    /// A copy of the signature.
    pub fn duplicate(&self) -> (r: Signature)
        ensures
            r@ == self@,
    {
        proof {
            use_type_invariant(self);
        }
        Signature { bytes: copy_bytes(&self.bytes) }
    }

    /// Appends the encoding to `output`.
    pub fn serialize(&self, output: &mut Vec<u8>)
        ensures
            final(output)@ == old(output)@ + self@,
    {
        put_bytes(output, &self.bytes);
    }

    /// Reads a signature off the next `PORS_SIGN_BYTES` bytes of the stream.
    ///
    /// Fails when the stream ends before that, and only then.
    pub fn deserialize<'a, I: Iterator<Item = &'a u8>>(it: &mut I) -> (r: Option<Signature>)
        ensures
            (*final(it)).obeys_prophetic_iter_laws() == (*old(it)).obeys_prophetic_iter_laws(),
            (*old(it)).obeys_prophetic_iter_laws() ==> match r {
                Some(s) => {
                    &&& PORS_SIGN_BYTES <= (*old(it)).remaining().len()
                    &&& s@ == (*old(it)).remaining().unref().take(PORS_SIGN_BYTES as int)
                    &&& (*final(it)).remaining() == (*old(it)).remaining().skip(
                        PORS_SIGN_BYTES as int,
                    )
                },
                None => {
                    &&& (*old(it)).remaining().len() < PORS_SIGN_BYTES
                    &&& (*final(it)).remaining().len() == 0
                },
            },
    {
        match take_bytes(it, PORS_SIGN_BYTES) {
            Some(bytes) => Some(Signature { bytes }),
            None => None,
        }
    }
}

} // verus!
