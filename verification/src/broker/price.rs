//! The reserve price of the next sale, from how the last one sold.

use crate::broker::ratio::{lemma_scaled_bounds, rational_parts, scaled, PerBillion, BILLION};
use crate::broker::types::{Balance, CoreIndex, Pallet, SaleInfoRecord};
use vstd::prelude::*;

verus! {

/// `x`, held to the range of `u128`.
pub open spec fn saturated_balance(x: int) -> Balance {
    if x > u128::MAX {
        u128::MAX
    } else if x < 0 {
        0u128
    } else {
        x as u128
    }
}

/// The fraction by which the price moves. When more than the ideal was sold, it is the
/// share of the cores offered above the ideal that were sold; otherwise it is the share
/// of the ideal that was not sold. It is zero where that share has no denominator.
pub open spec fn price_shift(offered: CoreIndex, ideal: CoreIndex, sold: CoreIndex) -> u32 {
    if sold > ideal {
        if offered > ideal {
            rational_parts((sold - ideal) as u32, (offered - ideal) as u32)
        } else {
            0u32
        }
    } else {
        if ideal > 0 {
            (BILLION - rational_parts(sold as u32, ideal as u32)) as u32
        } else {
            0u32
        }
    }
}

/// The price after a sale: raised by the shift when more than the ideal was sold,
/// lowered by it otherwise. The raised price saturates.
pub open spec fn spec_bump_price(
    offered: CoreIndex,
    ideal: CoreIndex,
    sold: CoreIndex,
    old: Balance,
) -> Balance {
    let shift = price_shift(offered, ideal, sold);
    if sold > ideal {
        saturated_balance(old + scaled(shift, old))
    } else {
        saturated_balance(old - scaled(shift, old))
    }
}

/// The reserve price that follows a sale: the bumped price, or the old one where no
/// core was offered.
pub open spec fn next_reserve_price(sale: SaleInfoRecord) -> Balance {
    if sale.cores_offered > 0 {
        spec_bump_price(
            sale.cores_offered,
            sale.ideal_cores_sold,
            sale.cores_sold,
            sale.reserve_price,
        )
    } else {
        sale.reserve_price
    }
}

/// A fraction that `rational_parts` gives is at most one whole.
pub proof fn lemma_rational_parts_bound(p: u32, q: u32)
    ensures
        rational_parts(p, q) <= BILLION,
        q != 0 && p <= q ==> rational_parts(p, q) == (BILLION as int * p as int) / (q as int),
{
    if q != 0 && p <= q {
        let b = BILLION as int;
        assert(0 <= (b * p) / (q as int) <= b) by (nonlinear_arith)
            requires
                0 <= p <= q,
                q > 0,
                b > 0,
        {
            assert(b * p <= b * q);
            assert((b * q) / (q as int) == b);
        }
    }
}

impl Pallet {
    /// The price for the next sale, given how many cores the last one offered, how many
    /// it was meant to sell and how many it sold, and its price.
    pub fn bump_price(offered: CoreIndex, ideal: CoreIndex, sold: CoreIndex, old: Balance) -> (new: Balance)
        ensures
            new == spec_bump_price(offered, ideal, sold, old),
    {
        if sold > ideal {
            let extra = if offered > ideal {
                PerBillion::from_rational((sold - ideal) as u32, (offered - ideal) as u32)
            } else {
                PerBillion::zero()
            };
            old.saturating_add(extra.mul(old))
        } else {
            let extra = if ideal > 0 {
                proof {
                    lemma_rational_parts_bound(sold as u32, ideal as u32);
                }
                PerBillion::from_rational(sold as u32, ideal as u32).left_from_one()
            } else {
                PerBillion::zero()
            };
            old.saturating_sub(extra.mul(old))
        }
    }
}

/// A sale that sold more than the ideal never lowers the price, and one that sold at
/// most the ideal never raises it.
pub proof fn lemma_bump_price_direction(
    offered: CoreIndex,
    ideal: CoreIndex,
    sold: CoreIndex,
    old: Balance,
)
    ensures
        sold > ideal ==> spec_bump_price(offered, ideal, sold, old) >= old,
        sold <= ideal ==> spec_bump_price(offered, ideal, sold, old) <= old,
{
    lemma_scaled_bounds(price_shift(offered, ideal, sold), old);
}

/// Six tenths of a positive amount round to at least one.
proof fn lemma_six_tenths_positive(old: Balance)
    requires
        old > 0,
    ensures
        scaled(600_000_000u32, old) >= 1,
{
    let product = 600_000_000int * old as int;
    if old == 1 {
        assert(product == 600_000_000);
    } else {
        assert(product / 1_000_000_000 >= 1) by (nonlinear_arith)
            requires
                product == 600_000_000int * old as int,
                old >= 2,
        ;
    }
}

/// With 100 cores offered and 50 ideal, a sale of 80 raises every price that is
/// positive and can still rise; the raised price saturates at the largest balance.
pub proof fn lemma_oversold_raises_price(old: Balance)
    requires
        0 < old < u128::MAX,
    ensures
        spec_bump_price(100, 50, 80, old) > old,
{
    assert((BILLION as int * 30) / 50 == 600_000_000int);
    lemma_six_tenths_positive(old);
}

/// With 100 cores offered and 50 ideal, a sale of 20 lowers every positive price.
pub proof fn lemma_undersold_lowers_price(old: Balance)
    requires
        0 < old,
    ensures
        spec_bump_price(100, 50, 20, old) < old,
{
    assert((BILLION as int * 20) / 50 == 400_000_000int);
    lemma_six_tenths_positive(old);
    lemma_scaled_bounds(600_000_000u32, old);
}

/// A sale that offered no core leaves the reserve price as it was.
pub proof fn lemma_nothing_offered_keeps_price(sale: SaleInfoRecord)
    requires
        sale.cores_offered == 0,
    ensures
        next_reserve_price(sale) == sale.reserve_price,
{
}

} // verus!
