//! Where in the hypertree a key or a signature stands.

use vstd::prelude::*;
use vstd::arithmetic::div_mod::{lemma_div_nonincreasing, lemma_div_pos_is_pos};
use vstd::arithmetic::power2::{lemma_pow2_pos, pow2};
use vstd::bits::lemma_u64_shr_is_div;

verus! {

/// A position in the hypertree: the layer, and the number of the instance
/// within that layer.
#[derive(Clone, Copy, Debug, PartialEq, Eq, Structural)]
pub struct Address {
    pub layer: u32,
    pub instance: u64,
}

impl Address {
    /// The address one layer up: the layer number goes up by one, and wraps
    /// around behind the largest one. The instance stays.
    pub open spec fn advanced(self) -> Address {
        Address {
            layer: if self.layer == u32::MAX {
                0u32
            } else {
                (self.layer + 1) as u32
            },
            instance: self.instance,
        }
    }

    /// The address with the lowest `height` bits of the instance dropped:
    /// the instance divided by two to the power `height`.
    pub open spec fn shifted(self, height: nat) -> Address {
        Address { layer: self.layer, instance: (self.instance as nat / pow2(height)) as u64 }
    }

    /// Dropping bits keeps the layer and divides the instance, rounding
    /// down.
    pub proof fn lemma_shifted(self, height: nat)
        ensures
            self.shifted(height).layer == self.layer,
            self.shifted(height).instance == self.instance as nat / pow2(height),
    {
        lemma_pow2_pos(height);
        lemma_div_nonincreasing(self.instance as int, pow2(height) as int);
        lemma_div_pos_is_pos(self.instance as int, pow2(height) as int);
    }

    /// The address with the given layer and instance.
    pub fn new(layer: u32, instance: u64) -> (r: Address)
        ensures
            r == (Address { layer, instance }),
    {
        Address { layer, instance }
    }

    /// Moves the address to the next layer.
    pub fn next_layer(&mut self)
        ensures
            *final(self) == old(self).advanced(),
    {
        self.layer = self.layer.wrapping_add(1);
    }

    /// Drops the lowest `height` bits of the instance, which number the
    /// position inside a subtree of that height.
    pub fn shift(&mut self, height: usize)
        requires
            height < 64,
        ensures
            *final(self) == old(self).shifted(height as nat),
    {
        proof {
            lemma_u64_shr_is_div(self.instance, height as u64);
        }
        self.instance = self.instance >> height;
    }

    /// The instance number.
    pub fn get_instance(&self) -> (r: u64)
        ensures
            r == self.instance,
    {
        self.instance
    }
}

} // verus!
