//! The bit-set store: a fixed-capacity set of capability flags, one bit
//! per identifier.

use vstd::prelude::*;
use vstd::set_lib::*;

verus! {

/// Number of flags that an [`Initializer`] holds.
pub const CAPACITY: u32 = 128;

/// Whether bit `bit` of `x` is set.
pub open spec fn bit_is_set(x: u128, bit: u32) -> bool {
    x & (1u128 << bit) != 0
}

/// The bits of `x` below `n`.
spec fn low_mask(n: u32) -> u128 {
    if n >= 128 {
        !0u128
    } else {
        !(!0u128 << n)
    }
}

proof fn lemma_no_bit_in_zero(bit: u32)
    by (bit_vector)
    requires
        bit < 128,
    ensures
        !bit_is_set(0u128, bit),
{
}

proof fn lemma_bit_after_set(x: u128, bit: u32, other: u32)
    by (bit_vector)
    requires
        bit < 128,
        other < 128,
    ensures
        bit_is_set(x | (1u128 << bit), other) == (other == bit || bit_is_set(x, other)),
{
}

proof fn lemma_agree_below_zero(a: u128, b: u128)
    by (bit_vector)
    ensures
        (a ^ b) & low_mask(0) == 0,
{
}

proof fn lemma_agree_one_more(a: u128, b: u128, n: u32)
    by (bit_vector)
    requires
        n < 128,
        (a ^ b) & low_mask(n) == 0,
        bit_is_set(a, n) == bit_is_set(b, n),
    ensures
        (a ^ b) & low_mask((n + 1) as u32) == 0,
{
}

proof fn lemma_agree_everywhere(a: u128, b: u128)
    by (bit_vector)
    requires
        (a ^ b) & low_mask(128) == 0,
    ensures
        a == b,
{
}

proof fn lemma_agree_below(a: u128, b: u128, n: u32)
    requires
        n <= 128,
        forall|i: u32| i < 128 ==> bit_is_set(a, i) == bit_is_set(b, i),
    ensures
        (a ^ b) & low_mask(n) == 0,
    decreases n,
{
    if n == 0 {
        lemma_agree_below_zero(a, b);
    } else {
        let m = (n - 1) as u32;
        lemma_agree_below(a, b, m);
        assert(bit_is_set(a, m) == bit_is_set(b, m));
        lemma_agree_one_more(a, b, m);
    }
}

/// Two words with the same bits are the same word.
proof fn lemma_bits_determine_word(a: u128, b: u128)
    requires
        forall|i: u32| i < 128 ==> bit_is_set(a, i) == bit_is_set(b, i),
    ensures
        a == b,
{
    lemma_agree_below(a, b, 128);
    lemma_agree_everywhere(a, b);
}

/// Tests bit `bit` of `x`.
fn test_bit(x: u128, bit: u32) -> (r: bool)
    requires
        bit < 128,
    ensures
        r == bit_is_set(x, bit),
{
    x & (1u128 << bit) != 0
}

/// Sets bit `bit` of `x`.
fn set_bit(x: u128, bit: u32) -> (r: u128)
    requires
        bit < 128,
    ensures
        forall|other: u32| other < 128 ==> bit_is_set(r, other) == (other == bit || bit_is_set(x, other)),
{
    let r: u128 = x | (1u128 << bit);
    proof {
        assert forall|other: u32| other < 128 implies bit_is_set(r, other) == (other == bit
            || bit_is_set(x, other)) by {
            lemma_bit_after_set(x, bit, other);
        }
    }
    r
}

/// A set of capability flags, indexed by capability identifier.
///
/// Its view is the set of the identifiers whose flag is set. Two values
/// are equal exactly when every flag agrees, and no operation clears a
/// flag.
#[derive(Clone, Copy, Debug, PartialEq, Eq, Structural)]
pub struct Initializer(u128);

impl View for Initializer {
    type V = Set<nat>;

    closed spec fn view(&self) -> Set<nat> {
        Set::new(|id: nat| id < 128 && bit_is_set(self.0, id as u32))
    }
}

impl Default for Initializer {
    /// The store with no flag set.
    fn default() -> (empty: Initializer)
        ensures
            empty@ == Set::<nat>::empty(),
    {
        let empty = Initializer(0);
        proof {
            assert forall|id: nat| !empty@.contains(id) by {
                if id < 128 {
                    lemma_no_bit_in_zero(id as u32);
                }
            }
            assert(empty@ =~= Set::<nat>::empty());
        }
        empty
    }
}

impl Initializer {
    /// Whether the flag of identifier `bit` is set.
    pub fn test(self, bit: u32) -> (present: bool)
        requires
            bit < CAPACITY,
        ensures
            present == self@.contains(bit as nat),
    {
        test_bit(self.0, bit)
    }

    /// Sets the flag of identifier `bit`. Setting a flag that is set
    /// already changes nothing.
    pub fn set(&mut self, bit: u32)
        requires
            bit < CAPACITY,
        ensures
            final(self)@ == old(self)@.insert(bit as nat),
            old(self)@.contains(bit as nat) ==> *final(self) == *old(self),
    {
        let v: u128 = self.0;
        self.0 = set_bit(v, bit);
        proof {
            assert forall|id: nat| self@.contains(id) == old(self)@.insert(bit as nat).contains(
                id,
            ) by {
                if id < 128 {
                    assert(bit_is_set(self.0, id as u32) == (id as u32 == bit || bit_is_set(
                        v,
                        id as u32,
                    )));
                }
            }
            assert(self@ =~= old(self)@.insert(bit as nat));
            if old(self)@.contains(bit as nat) {
                assert(self@ =~= old(self)@);
                self.lemma_equal_by_view(*old(self));
            }
        }
    }

    /// Every identifier in a store is below [`CAPACITY`], so a store holds
    /// at most that many.
    pub proof fn lemma_bounded(self)
        ensures
            forall|id: nat| self@.contains(id) ==> id < CAPACITY,
            self@.finite(),
            self@.len() <= CAPACITY,
    {
        let below = set_int_range(0, 128);
        let ids = below.map(|i: int| i as nat);
        lemma_int_range(0, 128);
        lemma_map_size_bound(below, ids, |i: int| i as nat);
        assert forall|id: nat| self@.contains(id) implies ids.contains(id) by {
            assert(below.contains(id as int));
        }
        lemma_len_subset(self@, ids);
    }

    /// Stores with the same flags are equal: `==` on stores compares the
    /// sets of identifiers.
    pub proof fn lemma_equal_by_view(self, other: Initializer)
        ensures
            self@ == other@ <==> self == other,
    {
        if self@ == other@ {
            assert forall|i: u32| i < 128 implies bit_is_set(self.0, i) == bit_is_set(
                other.0,
                i,
            ) by {
                let id = i as nat;
                assert(id as u32 == i);
                assert(self@.contains(id) == bit_is_set(self.0, id as u32));
                assert(other@.contains(id) == bit_is_set(other.0, id as u32));
            }
            lemma_bits_determine_word(self.0, other.0);
        }
    }
}

} // verus!
