//! The parameter set shared by signer and verifier.
//!
//! A signature made under one parameter set is never valid under another, so
//! every size in this crate is a constant of this module.

use vstd::prelude::*;
use vstd::arithmetic::power2::{lemma2_to64, pow2};

verus! {

/// Width of a digest in bytes.
pub const HASH_SIZE: usize = 32;

/// Height of one subtree of one-time keys.
pub const MERKLE_H: usize = 5;

/// Number of one-time keys under one subtree: two to the power `MERKLE_H`.
pub const MERKLE_HHH: usize = 32;

/// Number of subtree layers that a signature passes through.
pub const GRAVITY_D: usize = 10;

/// Height of the top authentication tree.
pub const GRAVITY_C: usize = 14;

/// Number of leaves of the top authentication tree: two to the power
/// `GRAVITY_C`.
pub const GRAVITY_CCC: usize = 16384;

/// Number of nodes of the top authentication tree, leaves and root counted.
pub const GRAVITY_NODES: usize = 32767;

/// Width in bytes of the encoding of a few-time signature.
pub const PORS_SIGN_BYTES: usize = 11680;

/// Width in bytes of the encoding of one subtree signature.
pub const SUBTREE_SIGN_BYTES: usize = 2304;

/// Width in bytes of the encoding of a whole signature.
pub const GRAVITY_SIGN_BYTES: usize = 35168;

/// How the constants of the parameter set hang together: the two leaf
/// counts are the powers of two of their heights, the layers below the top
/// tree and the top tree itself use up the 64 bits of an instance number,
/// and a signature is as wide as its parts laid end to end.
pub proof fn lemma_parameters()
    ensures
        MERKLE_HHH == pow2(MERKLE_H as nat),
        GRAVITY_CCC == pow2(GRAVITY_C as nat),
        GRAVITY_NODES == 2 * GRAVITY_CCC - 1,
        GRAVITY_C + GRAVITY_D * MERKLE_H == 64,
        GRAVITY_SIGN_BYTES == PORS_SIGN_BYTES + GRAVITY_D * SUBTREE_SIGN_BYTES + GRAVITY_C
            * HASH_SIZE,
{
    lemma2_to64();
}

} // verus!
