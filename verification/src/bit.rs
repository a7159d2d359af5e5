//! Bits of a machine word.

use vstd::prelude::*;

verus! {

/// Whether bit `bit` of `x` is set.
pub open spec fn is_set(x: usize, bit: u32) -> bool {
    x & (1usize << bit) != 0
}

/// Tests bit `bit` of `x`.
pub fn test(x: usize, bit: u32) -> (set: bool)
    requires
        bit < usize::BITS,
    ensures
        set == is_set(x, bit),
{
    x & (1usize << bit) != 0
}

} // verus!
