//! The parts of a core: a mask of eighty bits, one per eightieth of the core's time.

use vstd::prelude::*;

verus! {

/// How many parts a core is divided into.
pub const CORE_PARTS: u32 = 80;

/// The bits of a mask that covers the whole core: the low eighty.
pub const COMPLETE_BITS: u128 = 0xffff_ffff_ffff_ffff_ffff;

/// Whether bit `i` of `bits` is set.
pub open spec fn bit_at(bits: u128, i: u32) -> bool {
    (bits >> i) & 1u128 == 1u128
}

/// How many of the low `n` bits of `bits` are set.
pub open spec fn ones_below(bits: u128, n: nat) -> nat
    decreases n,
{
    if n == 0 {
        0
    } else {
        ones_below(bits, (n - 1) as nat) + if bit_at(bits, (n - 1) as u32) {
            1nat
        } else {
            0nat
        }
    }
}

/// At most `n` of the low `n` bits are set.
pub proof fn lemma_ones_below_bound(bits: u128, n: nat)
    ensures
        ones_below(bits, n) <= n,
    decreases n,
{
    if n > 0 {
        lemma_ones_below_bound(bits, (n - 1) as nat);
    }
}

/// The mask without bits covers nothing.
pub proof fn lemma_ones_of_void(n: nat)
    requires
        n <= 128,
    ensures
        ones_below(0, n) == 0,
    decreases n,
{
    if n > 0 {
        lemma_ones_of_void((n - 1) as nat);
        let i = (n - 1) as u32;
        assert(!bit_at(0u128, i)) by (bit_vector)
            requires
                i < 128,
        ;
    }
}

/// The mask of the whole core covers each of the first eighty parts.
pub proof fn lemma_ones_of_complete(n: nat)
    requires
        n <= CORE_PARTS,
    ensures
        ones_below(COMPLETE_BITS, n) == n,
    decreases n,
{
    if n > 0 {
        lemma_ones_of_complete((n - 1) as nat);
        let i = (n - 1) as u32;
        assert(bit_at(0xffff_ffff_ffff_ffff_ffffu128, i)) by (bit_vector)
            requires
                i < 80,
        ;
    }
}

/// Two masks that share no bit cover together as many parts as the two apart.
pub proof fn lemma_ones_of_disjoint(a: u128, b: u128, n: nat)
    requires
        a & b == 0,
        n <= 128,
    ensures
        ones_below(a | b, n) == ones_below(a, n) + ones_below(b, n),
    decreases n,
{
    if n > 0 {
        lemma_ones_of_disjoint(a, b, (n - 1) as nat);
        let i = (n - 1) as u32;
        assert(bit_at(a | b, i) == (bit_at(a, i) || bit_at(b, i))) by (bit_vector)
            requires
                i < 128,
        ;
        assert(!(bit_at(a, i) && bit_at(b, i))) by (bit_vector)
            requires
                a & b == 0,
                i < 128,
        ;
    }
}

/// A set of parts of one core.
#[derive(Clone, Copy, Debug, PartialEq, Eq, Structural)]
pub struct CorePart {
    pub bits: u128,
}

impl CorePart {
    /// How many parts the mask covers.
    pub open spec fn spec_count_ones(self) -> nat {
        ones_below(self.bits, CORE_PARTS as nat)
    }

    /// The mask that covers nothing.
    pub fn void() -> (m: CorePart)
        ensures
            m.bits == 0,
    {
        CorePart { bits: 0 }
    }

    /// The mask that covers the whole core.
    pub fn complete() -> (m: CorePart)
        ensures
            m.bits == COMPLETE_BITS,
    {
        CorePart { bits: COMPLETE_BITS }
    }

    /// The mask with the given bits; bits beyond the eightieth are dropped.
    pub fn from_bits(bits: u128) -> (m: CorePart)
        ensures
            m.bits == bits & COMPLETE_BITS,
    {
        CorePart { bits: bits & COMPLETE_BITS }
    }

    /// Whether the mask covers nothing.
    pub fn is_void(&self) -> (b: bool)
        ensures
            b == (self.bits == 0),
    {
        self.bits == 0
    }

    /// Whether the mask covers the whole core.
    pub fn is_complete(&self) -> (b: bool)
        ensures
            b == (self.bits == COMPLETE_BITS),
    {
        self.bits == COMPLETE_BITS
    }

    /// The parts covered by either mask.
    pub fn or(self, other: CorePart) -> (m: CorePart)
        ensures
            m.bits == self.bits | other.bits,
    {
        CorePart { bits: self.bits | other.bits }
    }

    /// The parts covered by both masks.
    pub fn and(self, other: CorePart) -> (m: CorePart)
        ensures
            m.bits == self.bits & other.bits,
    {
        CorePart { bits: self.bits & other.bits }
    }

    /// How many parts the mask covers.
    pub fn count_ones(&self) -> (n: u32)
        ensures
            n == self.spec_count_ones(),
            n <= CORE_PARTS,
    {
        let mut n: u32 = 0;
        let mut i: u32 = 0;
        while i < CORE_PARTS
            invariant
                i <= CORE_PARTS,
                n == ones_below(self.bits, i as nat),
                n <= i,
            decreases CORE_PARTS - i,
        {
            if (self.bits >> i) & 1u128 == 1u128 {
                n += 1;
            }
            i += 1;
        }
        n
    }
}

} // verus!
