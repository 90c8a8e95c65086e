//! Two-dimensional execution cost and the meter that budgets it.

use vstd::prelude::*;

verus! {

/// A cost with two independent components: computation time and proof (storage) size.
#[derive(Clone, Copy, Debug, PartialEq, Eq, Structural)]
pub struct Weight {
    pub ref_time: u64,
    pub proof_size: u64,
}

/// The component-wise sum of two weights, each component saturating at `u64::MAX`.
pub open spec fn weight_sum(a: Weight, b: Weight) -> Weight {
    Weight {
        ref_time: if a.ref_time + b.ref_time > u64::MAX {
            u64::MAX
        } else {
            (a.ref_time + b.ref_time) as u64
        },
        proof_size: if a.proof_size + b.proof_size > u64::MAX {
            u64::MAX
        } else {
            (a.proof_size + b.proof_size) as u64
        },
    }
}

/// The component-wise difference of two weights, each component saturating at zero.
pub open spec fn weight_diff(a: Weight, b: Weight) -> Weight {
    Weight {
        ref_time: if a.ref_time < b.ref_time {
            0u64
        } else {
            (a.ref_time - b.ref_time) as u64
        },
        proof_size: if a.proof_size < b.proof_size {
            0u64
        } else {
            (a.proof_size - b.proof_size) as u64
        },
    }
}

/// Whether `a` is at most `b` in both components.
pub open spec fn weight_fits(a: Weight, b: Weight) -> bool {
    a.ref_time <= b.ref_time && a.proof_size <= b.proof_size
}

impl Weight {
    /// The weight with both components zero.
    pub fn zero() -> (w: Weight)
        ensures
            w == (Weight { ref_time: 0, proof_size: 0 }),
    {
        Weight { ref_time: 0, proof_size: 0 }
    }

    /// A weight from its two components.
    pub fn from_parts(ref_time: u64, proof_size: u64) -> (w: Weight)
        ensures
            w == (Weight { ref_time, proof_size }),
    {
        Weight { ref_time, proof_size }
    }

    /// Component-wise saturating addition.
    pub fn saturating_add(self, other: Weight) -> (w: Weight)
        ensures
            w == weight_sum(self, other),
    {
        Weight {
            ref_time: self.ref_time.saturating_add(other.ref_time),
            proof_size: self.proof_size.saturating_add(other.proof_size),
        }
    }

    /// Component-wise saturating subtraction.
    pub fn saturating_sub(self, other: Weight) -> (w: Weight)
        ensures
            w == weight_diff(self, other),
    {
        Weight {
            ref_time: self.ref_time.saturating_sub(other.ref_time),
            proof_size: self.proof_size.saturating_sub(other.proof_size),
        }
    }

    /// Whether `self` is at most `other` in both components.
    pub fn all_lte(self, other: Weight) -> (b: bool)
        ensures
            b == weight_fits(self, other),
    {
        self.ref_time <= other.ref_time && self.proof_size <= other.proof_size
    }
}

/// Tracks how much of a weight limit has been used.
///
/// `consumed` may exceed `limit`: work that must run regardless of the budget is
/// accounted with [`WeightMeter::overdraw`], after which the overdrawn component has
/// nothing remaining.
#[derive(Clone, Copy, Debug, PartialEq, Eq, Structural)]
pub struct WeightMeter {
    pub consumed: Weight,
    pub limit: Weight,
}

impl WeightMeter {
    /// What is left of the limit: the limit less what was consumed, saturating per component.
    pub open spec fn spec_remaining(self) -> Weight {
        weight_diff(self.limit, self.consumed)
    }

    /// Whether `amount` fits in what remains, component by component.
    pub open spec fn spec_can_consume(self, amount: Weight) -> bool {
        weight_fits(amount, self.spec_remaining())
    }

    /// The meter after `amount` was charged to it.
    pub open spec fn charged(self, amount: Weight) -> WeightMeter {
        WeightMeter { consumed: weight_sum(self.consumed, amount), limit: self.limit }
    }

    /// A fresh meter with nothing consumed.
    pub fn with_limit(limit: Weight) -> (m: WeightMeter)
        ensures
            m == (WeightMeter { consumed: Weight { ref_time: 0, proof_size: 0 }, limit }),
    {
        WeightMeter { consumed: Weight::zero(), limit }
    }

    /// The unused part of the limit.
    pub fn remaining(&self) -> (w: Weight)
        ensures
            w == self.spec_remaining(),
    {
        self.limit.saturating_sub(self.consumed)
    }

    /// The total charged so far.
    pub fn consumed(&self) -> (w: Weight)
        ensures
            w == self.consumed,
    {
        self.consumed
    }

    /// Whether `amount` could be consumed without exceeding the limit.
    pub fn can_consume(&self, amount: Weight) -> (b: bool)
        ensures
            b == self.spec_can_consume(amount),
    {
        amount.all_lte(self.remaining())
    }

    /// Charges `amount` if it fits in what remains and says whether it did.
    /// A meter that cannot take the amount is left untouched.
    pub fn consume(&mut self, amount: Weight) -> (fit: bool)
        ensures
            fit == old(self).spec_can_consume(amount),
            fit ==> *final(self) == old(self).charged(amount),
            !fit ==> *final(self) == *old(self),
            fit ==> final(self).consumed.ref_time == old(self).consumed.ref_time + amount.ref_time,
            fit ==> final(self).consumed.proof_size == old(self).consumed.proof_size
                + amount.proof_size,
    {
        if self.can_consume(amount) {
            self.consumed = self.consumed.saturating_add(amount);
            true
        } else {
            false
        }
    }

    /// Charges `amount` whether or not it fits; the consumed total saturates.
    pub fn overdraw(&mut self, amount: Weight)
        ensures
            *final(self) == old(self).charged(amount),
    {
        self.consumed = self.consumed.saturating_add(amount);
    }
}

} // verus!
