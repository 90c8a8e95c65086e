//! A pool of two assets: its record and the arithmetic of its prices. A swap pays a
//! fee of three thousandths; every price is rounded down, except the amount to pay in,
//! which is rounded up.

use vstd::prelude::*;

verus! {

/// The identifier of an asset.
pub type AssetId = u32;

/// An amount of an asset.
pub type AssetBalance = u128;

/// The identity of a pool: its two assets, the lower identifier first.
pub type PoolId = (AssetId, AssetId);

/// A pool of two assets and the token that stands for shares of it.
#[derive(Debug, PartialEq, Eq)]
pub struct PoolInfo<AccountId, AssetId, Balance> {
    /// Owner of the pool
    pub owner: AccountId,
    /// The asset that stands for shares of the pool
    pub lp_token: AssetId,
    /// The first asset of the pool
    pub asset1: AssetId,
    /// The second asset of the pool
    pub asset2: AssetId,
    /// How much of the first asset the pool holds
    pub balance1: Balance,
    /// How much of the second asset the pool holds
    pub balance2: Balance,
}

/// Why an operation on a pool failed.
#[derive(Clone, Copy, Debug, PartialEq, Eq, Structural)]
pub enum Error {
    /// Provided assets are equal.
    EqualAssets,
    /// Pool already exists.
    PoolExists,
    /// Desired amount can't be zero.
    WrongDesiredAmount,
    /// The deadline has already passed.
    DeadlinePassed,
    /// The pool doesn't exist.
    PoolNotFound,
    /// An overflow happened.
    Overflow,
    /// Insufficient amount provided.
    InsufficientAmount,
    /// Optimal calculated amount is less than desired.
    OptimalAmountLessThanDesired,
    /// Insufficient liquidity minted.
    InsufficientLiquidityMinted,
    /// Asked liquidity can't be zero.
    ZeroLiquidity,
    /// Amount can't be zero.
    ZeroAmount,
    /// Calculated amount out is less than min desired.
    InsufficientOutputAmount,
    /// Insufficient liquidity in the pool.
    InsufficientLiquidity,
    /// Excessive input amount.
    ExcessiveInputAmount,
}

/// `x` if it is a balance, and `Overflow` if it is too large for one.
pub open spec fn as_balance(x: int) -> Result<AssetBalance, Error> {
    if 0 <= x <= u128::MAX {
        Ok(x as u128)
    } else {
        Err(Error::Overflow)
    }
}

/// The amount of the second asset that is worth `amount` of the first at the reserves
/// of a pool: `amount * reserve2 / reserve1`, rounded down. It overflows where the
/// product is too large or the first reserve is empty.
pub open spec fn spec_quote(amount: AssetBalance, reserve1: AssetBalance, reserve2: AssetBalance) -> Result<
    AssetBalance,
    Error,
> {
    if amount * reserve2 > u128::MAX || reserve1 == 0 {
        Err(Error::Overflow)
    } else {
        Ok(((amount * reserve2) / (reserve1 as int)) as u128)
    }
}

/// The most of the other asset that a swap pays out for `amount_in`, after the fee:
/// `amount_in * 997 * reserve_out / (reserve_in * 1000 + amount_in * 997)`, rounded down.
pub open spec fn spec_amount_out(
    amount_in: AssetBalance,
    reserve_in: AssetBalance,
    reserve_out: AssetBalance,
) -> Result<AssetBalance, Error> {
    let with_fee = amount_in * 997;
    let numerator = with_fee * reserve_out;
    let denominator = reserve_in * 1000 + with_fee;
    if reserve_in == 0 || reserve_out == 0 {
        Err(Error::InsufficientLiquidity)
    } else if with_fee > u128::MAX || numerator > u128::MAX || reserve_in * 1000 > u128::MAX
        || denominator > u128::MAX {
        Err(Error::Overflow)
    } else {
        Ok((numerator / denominator) as u128)
    }
}

/// What a swap asks in for it to pay out `amount_out` of the other asset, with the fee:
/// `reserve_in * amount_out * 1000 / ((reserve_out - amount_out) * 997) + 1`, the
/// quotient rounded down.
pub open spec fn spec_amount_in(
    amount_out: AssetBalance,
    reserve_in: AssetBalance,
    reserve_out: AssetBalance,
) -> Result<AssetBalance, Error> {
    let numerator = reserve_in * amount_out * 1000;
    let denominator = (reserve_out - amount_out) * 997;
    if reserve_in == 0 || reserve_out == 0 {
        Err(Error::InsufficientLiquidity)
    } else if reserve_in * amount_out > u128::MAX || numerator > u128::MAX || amount_out
        >= reserve_out || denominator > u128::MAX {
        Err(Error::Overflow)
    } else {
        as_balance(numerator / denominator + 1)
    }
}

/// The pools' arithmetic.
pub struct Pallet;

impl Pallet {
    /// The identity of the pool of two assets: the two, the lower identifier first.
    pub fn get_pool_id(asset1: AssetId, asset2: AssetId) -> (id: PoolId)
        ensures
            id == if asset1 <= asset2 {
                (asset1, asset2)
            } else {
                (asset2, asset1)
            },
    {
        if asset1 <= asset2 {
            (asset1, asset2)
        } else {
            (asset2, asset1)
        }
    }

    /// The amount of the second asset that is worth `amount` of the first.
    pub fn quote(amount: AssetBalance, reserve1: AssetBalance, reserve2: AssetBalance) -> (r: Result<
        AssetBalance,
        Error,
    >)
        ensures
            r == spec_quote(amount, reserve1, reserve2),
    {
        let product = match amount.checked_mul(reserve2) {
            Some(p) => p,
            None => {
                return Err(Error::Overflow);
            },
        };
        match product.checked_div(reserve1) {
            Some(q) => Ok(q),
            None => Err(Error::Overflow),
        }
    }

    /// The most of the other asset that a swap pays out for `amount_in`.
    ///
    /// Fails with `InsufficientLiquidity` where a reserve is empty and with `Overflow`
    /// where a product or the sum is too large for a balance.
    pub fn get_amount_out(amount_in: AssetBalance, reserve_in: AssetBalance, reserve_out: AssetBalance) -> (r:
        Result<AssetBalance, Error>)
        ensures
            r == spec_amount_out(amount_in, reserve_in, reserve_out),
    {
        if reserve_in == 0 || reserve_out == 0 {
            return Err(Error::InsufficientLiquidity);
        }
        let amount_in_with_fee = match amount_in.checked_mul(997) {
            Some(x) => x,
            None => {
                return Err(Error::Overflow);
            },
        };
        let numerator = match amount_in_with_fee.checked_mul(reserve_out) {
            Some(x) => x,
            None => {
                proof {
                    assert(amount_in * 997 * reserve_out == amount_in_with_fee * reserve_out);
                }
                return Err(Error::Overflow);
            },
        };
        let scaled = match reserve_in.checked_mul(1000) {
            Some(x) => x,
            None => {
                return Err(Error::Overflow);
            },
        };
        let denominator = match scaled.checked_add(amount_in_with_fee) {
            Some(x) => x,
            None => {
                return Err(Error::Overflow);
            },
        };
        match numerator.checked_div(denominator) {
            Some(q) => Ok(q),
            None => Err(Error::Overflow),
        }
    }

    /// What a swap asks in for it to pay out `amount_out` of the other asset.
    ///
    /// Fails with `InsufficientLiquidity` where a reserve is empty and with `Overflow`
    /// where the reserve cannot pay out that much or a number is too large for a
    /// balance.
    pub fn get_amount_in(amount_out: AssetBalance, reserve_in: AssetBalance, reserve_out: AssetBalance) -> (r:
        Result<AssetBalance, Error>)
        ensures
            r == spec_amount_in(amount_out, reserve_in, reserve_out),
    {
        if reserve_in == 0 || reserve_out == 0 {
            return Err(Error::InsufficientLiquidity);
        }
        let product = match reserve_in.checked_mul(amount_out) {
            Some(x) => x,
            None => {
                return Err(Error::Overflow);
            },
        };
        let numerator = match product.checked_mul(1000) {
            Some(x) => x,
            None => {
                return Err(Error::Overflow);
            },
        };
        let left = match reserve_out.checked_sub(amount_out) {
            Some(x) => x,
            None => {
                return Err(Error::Overflow);
            },
        };
        let denominator = match left.checked_mul(997) {
            Some(x) => x,
            None => {
                return Err(Error::Overflow);
            },
        };
        let quotient = match numerator.checked_div(denominator) {
            Some(x) => x,
            None => {
                return Err(Error::Overflow);
            },
        };
        match quotient.checked_add(1) {
            Some(x) => Ok(x),
            None => Err(Error::Overflow),
        }
    }

    /// The asset that a swap from `asset_from` pays out of the pool, and the amount,
    /// if the pool's reserve of that asset is more than the amount.
    pub fn validate_swap(
        asset_from: AssetId,
        amount_out: AssetBalance,
        pool_id: PoolId,
        reserve1: AssetBalance,
        reserve2: AssetBalance,
    ) -> (r: Result<(AssetId, AssetBalance), Error>)
        ensures
            r == if asset_from == pool_id.0 {
                if amount_out < reserve2 {
                    Ok::<(AssetId, AssetBalance), Error>((pool_id.1, amount_out))
                } else {
                    Err::<(AssetId, AssetBalance), Error>(Error::InsufficientLiquidity)
                }
            } else {
                if amount_out < reserve1 {
                    Ok::<(AssetId, AssetBalance), Error>((pool_id.0, amount_out))
                } else {
                    Err::<(AssetId, AssetBalance), Error>(Error::InsufficientLiquidity)
                }
            },
    {
        let (pool_asset1, pool_asset2) = pool_id;
        if asset_from == pool_asset1 {
            if amount_out < reserve2 {
                Ok((pool_asset2, amount_out))
            } else {
                Err(Error::InsufficientLiquidity)
            }
        } else {
            if amount_out < reserve1 {
                Ok((pool_asset1, amount_out))
            } else {
                Err(Error::InsufficientLiquidity)
            }
        }
    }
}

/// A swap never pays out the whole reserve.
pub proof fn lemma_amount_out_is_less_than_reserve(
    amount_in: AssetBalance,
    reserve_in: AssetBalance,
    reserve_out: AssetBalance,
)
    requires
        spec_amount_out(amount_in, reserve_in, reserve_out) is Ok,
    ensures
        spec_amount_out(amount_in, reserve_in, reserve_out)->Ok_0 < reserve_out,
{
    let with_fee = amount_in * 997;
    let numerator = with_fee * reserve_out;
    let denominator = reserve_in * 1000 + with_fee;
    assert(numerator / denominator < reserve_out) by (nonlinear_arith)
        requires
            numerator == with_fee * reserve_out,
            denominator == reserve_in * 1000 + with_fee,
            reserve_in >= 1,
            reserve_out >= 1,
            with_fee >= 0,
    {
        assert(denominator > with_fee);
        assert(numerator < denominator * reserve_out);
    }
}

} // verus!
