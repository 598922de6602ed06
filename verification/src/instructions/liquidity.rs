//! Deposits: how many liquidity shares a deposit of the two assets mints.

use vstd::prelude::*;
use crate::errors::AamErrorCode;
use crate::math::{
    floor_sqrt, isqrt, lemma_floor_div_at_most, lemma_floor_div_bounds, lemma_floor_sqrt_exists,
    mul_div, mul_div_floor, mul_div_wide,
};
use crate::state::pool_state::PoolState;

verus! {

/// The shares withheld from the first deposit, so that a pool cannot be
/// opened with a handful of units and the rounding of the square root stays
/// negligible.
pub const MINIMUM_LIQUIDITY: u64 = 1_000;

/// What a deposit mints, and what it owes at the pool's ratio.
#[derive(Clone, Copy, Debug, PartialEq, Eq, Structural)]
pub struct LiquidityQuote {
    /// The liquidity shares to mint for the depositor.
    pub shares_minted: u64,
    /// The amount of the first asset that the shares are worth.
    pub charged_a: u64,
    /// The amount of the second asset that the shares are worth.
    pub charged_b: u64,
}

/// The outcome of the first deposit into a pool: the square root of the
/// product of the two amounts, less the minimum liquidity, for the whole of
/// both amounts.
pub open spec fn first_deposit(amount_a: u64, amount_b: u64) -> Result<
    LiquidityQuote,
    AamErrorCode,
> {
    let product = amount_a as nat * amount_b as nat;
    if product > u64::MAX {
        Err(AamErrorCode::MathOverflow)
    } else if floor_sqrt(product) <= MINIMUM_LIQUIDITY {
        Err(AamErrorCode::InsufficientInitialLiquidity)
    } else {
        Ok(
            LiquidityQuote {
                shares_minted: (floor_sqrt(product) - MINIMUM_LIQUIDITY) as u64,
                charged_a: amount_a,
                charged_b: amount_b,
            },
        )
    }
}

/// The shares that `amount` of one asset is worth in a pool that holds
/// `reserve` of it against `supply` shares.
pub open spec fn shares_for(amount: nat, supply: nat, reserve: nat) -> nat {
    mul_div_floor(amount, supply, reserve)
}

/// The amount of one asset that `shares` are worth in a pool that holds
/// `reserve` of it against `supply` shares.
pub open spec fn charge_for(shares: nat, reserve: nat, supply: nat) -> nat {
    mul_div_floor(shares, reserve, supply)
}

/// The shares that a deposit into an active pool mints: what the scarcer of
/// the two amounts is worth.
pub open spec fn shares_at_ratio(pool: PoolState, amount_a: u64, amount_b: u64) -> nat {
    let from_a = shares_for(amount_a as nat, pool.lp_supply as nat, pool.token_a_reserves as nat);
    let from_b = shares_for(amount_b as nat, pool.lp_supply as nat, pool.token_b_reserves as nat);
    if from_a <= from_b {
        from_a
    } else {
        from_b
    }
}

/// The outcome of a deposit into a pool that has shares outstanding. What
/// each amount is worth is held whole, however large: only the smaller of
/// the two, which is what is minted, must fit 64 bits.
pub open spec fn further_deposit(pool: PoolState, amount_a: u64, amount_b: u64) -> Result<
    LiquidityQuote,
    AamErrorCode,
> {
    let supply = pool.lp_supply as nat;
    let reserve_a = pool.token_a_reserves as nat;
    let reserve_b = pool.token_b_reserves as nat;
    let shares = shares_at_ratio(pool, amount_a, amount_b);
    let charged_a = charge_for(shares, reserve_a, supply);
    let charged_b = charge_for(shares, reserve_b, supply);
    if reserve_a == 0 || reserve_b == 0 {
        Err(AamErrorCode::ZeroDivision)
    } else if shares > u64::MAX {
        Err(AamErrorCode::MathOverflow)
    } else if shares == 0 {
        Err(AamErrorCode::InsufficientLiquidity)
    } else if amount_a < charged_a || amount_b < charged_b {
        Err(AamErrorCode::LiquidityRatioMismatch)
    } else {
        Ok(
            LiquidityQuote {
                shares_minted: shares as u64,
                charged_a: charged_a as u64,
                charged_b: charged_b as u64,
            },
        )
    }
}

/// The outcome of `add_liquidity` on every input.
pub open spec fn deposit_outcome(pool: PoolState, amount_a: u64, amount_b: u64) -> Result<
    LiquidityQuote,
    AamErrorCode,
> {
    if amount_a == 0 || amount_b == 0 {
        Err(AamErrorCode::ZeroAmount)
    } else if pool.lp_supply == 0 {
        first_deposit(amount_a, amount_b)
    } else {
        further_deposit(pool, amount_a, amount_b)
    }
}

/// Shares that are worth at most `amount` are charged at most `amount`:
/// rounding down twice never charges more than was offered.
pub proof fn lemma_charge_at_most_offer(amount: nat, supply: nat, reserve: nat, shares: nat)
    requires
        supply > 0,
        reserve > 0,
        shares <= shares_for(amount, supply, reserve),
    ensures
        charge_for(shares, reserve, supply) <= amount,
{
    let worth = shares_for(amount, supply, reserve);
    lemma_floor_div_bounds((amount * supply) as int, reserve as int);
    assert(shares * reserve <= supply * amount) by (nonlinear_arith)
        requires
            shares <= worth,
            reserve * worth <= amount * supply,
    ;
    assert(0 <= shares * reserve) by (nonlinear_arith);
    lemma_floor_div_at_most((shares * reserve) as int, supply as int, amount as int);
}

/// A deposit into an active pool is charged at the pool's ratio: the two
/// charges stand to each other as the two reserves do, as nearly as whole
/// numbers allow. Cross-multiplied, they differ by less than one reserve.
pub proof fn lemma_charges_keep_reserve_ratio(pool: PoolState, amount_a: u64, amount_b: u64)
    requires
        pool.is_active(),
        deposit_outcome(pool, amount_a, amount_b) is Ok,
    ensures
        ({
            let quote = deposit_outcome(pool, amount_a, amount_b)->Ok_0;
            let reserve_a = pool.token_a_reserves as int;
            let reserve_b = pool.token_b_reserves as int;
            &&& quote.charged_a == charge_for(
                quote.shares_minted as nat,
                reserve_a as nat,
                pool.lp_supply as nat,
            )
            &&& quote.charged_b == charge_for(
                quote.shares_minted as nat,
                reserve_b as nat,
                pool.lp_supply as nat,
            )
            &&& quote.charged_a * reserve_b < quote.charged_b * reserve_a + reserve_a
            &&& quote.charged_b * reserve_a < quote.charged_a * reserve_b + reserve_b
        }),
{
    let supply = pool.lp_supply as int;
    let reserve_a = pool.token_a_reserves as int;
    let reserve_b = pool.token_b_reserves as int;
    let shares = shares_at_ratio(pool, amount_a, amount_b) as int;
    let charged_a = charge_for(shares as nat, reserve_a as nat, supply as nat) as int;
    let charged_b = charge_for(shares as nat, reserve_b as nat, supply as nat) as int;
    lemma_charge_at_most_offer(amount_a as nat, supply as nat, reserve_a as nat, shares as nat);
    lemma_charge_at_most_offer(amount_b as nat, supply as nat, reserve_b as nat, shares as nat);
    assert(0 <= shares * reserve_a) by (nonlinear_arith)
        requires
            0 <= shares,
            0 <= reserve_a,
    ;
    assert(0 <= shares * reserve_b) by (nonlinear_arith)
        requires
            0 <= shares,
            0 <= reserve_b,
    ;
    lemma_floor_div_bounds(shares * reserve_a, supply);
    lemma_floor_div_bounds(shares * reserve_b, supply);
    assert(charged_a * reserve_b < charged_b * reserve_a + reserve_a) by (nonlinear_arith)
        requires
            supply > 0,
            reserve_a > 0,
            reserve_b > 0,
            supply * charged_a <= shares * reserve_a,
            shares * reserve_b < supply * charged_b + supply,
    ;
    assert(charged_b * reserve_a < charged_a * reserve_b + reserve_b) by (nonlinear_arith)
        requires
            supply > 0,
            reserve_a > 0,
            reserve_b > 0,
            supply * charged_b <= shares * reserve_b,
            shares * reserve_a < supply * charged_a + supply,
    ;
}

/// The pool after a deposit that the custody carried out to the letter: both
/// amounts added to the reserves, the minted shares to the supply.
pub open spec fn pool_after_deposit(
    pool: PoolState,
    amount_a: u64,
    amount_b: u64,
    quote: LiquidityQuote,
) -> PoolState {
    PoolState {
        lp_supply: (pool.lp_supply + quote.shares_minted) as u64,
        token_a_reserves: (pool.token_a_reserves + amount_a) as u64,
        token_b_reserves: (pool.token_b_reserves + amount_b) as u64,
        ..pool
    }
}

/// A deposit keeps a pool well formed, and leaves it active: an empty pool
/// becomes active with its first deposit, an active one stays so.
pub proof fn lemma_deposit_leaves_pool_active(pool: PoolState, amount_a: u64, amount_b: u64)
    requires
        pool.well_formed(),
        deposit_outcome(pool, amount_a, amount_b) is Ok,
        pool.token_a_reserves + amount_a <= u64::MAX,
        pool.token_b_reserves + amount_b <= u64::MAX,
        pool.lp_supply + deposit_outcome(pool, amount_a, amount_b)->Ok_0.shares_minted <= u64::MAX,
    ensures
        ({
            let quote = deposit_outcome(pool, amount_a, amount_b)->Ok_0;
            let settled = pool_after_deposit(pool, amount_a, amount_b, quote);
            settled.well_formed() && settled.is_active()
        }),
{
    if pool.lp_supply == 0 {
        lemma_floor_sqrt_exists(amount_a as nat * amount_b as nat);
    }
}

/// Computes what a deposit of `amount_a` and `amount_b` into `pool` mints.
///
/// Both amounts must be positive (`ZeroAmount`). Into a pool without shares
/// outstanding the deposit mints the square root of the product of the two
/// amounts, rounded down, less `MINIMUM_LIQUIDITY`, and is charged in full:
/// refused with `MathOverflow` where the product does not fit 64 bits, with
/// `InsufficientInitialLiquidity` where the root is at most
/// `MINIMUM_LIQUIDITY`. Into any other pool it mints what the scarcer amount
/// is worth at the pool's ratio, and the charge is what those shares are
/// worth: refused with `ZeroDivision` where either reserve is zero, with
/// `MathOverflow` where what the scarcer amount is worth does not fit 64
/// bits, with `InsufficientLiquidity` where no share would be minted. The charge is
/// compared with the offer, and `LiquidityRatioMismatch` stands for an offer
/// below it; rounding down makes sure that no offer is.
///
/// The pool is read, never written: a refused call cannot alter it.
pub fn add_liquidity(pool: &PoolState, amount_a: u64, amount_b: u64) -> (res: Result<
    LiquidityQuote,
    AamErrorCode,
>)
    ensures
        res == deposit_outcome(*pool, amount_a, amount_b),
        amount_a == 0 || amount_b == 0 ==> res == Err::<LiquidityQuote, AamErrorCode>(
            AamErrorCode::ZeroAmount,
        ),
        res != Err::<LiquidityQuote, AamErrorCode>(AamErrorCode::LiquidityRatioMismatch),
        pool.lp_supply == 0 && amount_a > 0 && amount_b > 0 && amount_a * amount_b <= u64::MAX
            ==> {
            let root = floor_sqrt(amount_a as nat * amount_b as nat);
            &&& root <= 1000 ==> res == Err::<LiquidityQuote, AamErrorCode>(
                AamErrorCode::InsufficientInitialLiquidity,
            )
            &&& root > 1000 ==> res == Ok::<LiquidityQuote, AamErrorCode>(
                LiquidityQuote {
                    shares_minted: (root - 1000) as u64,
                    charged_a: amount_a,
                    charged_b: amount_b,
                },
            )
        },
        pool.is_active() && amount_a > 0 && amount_b > 0 && shares_at_ratio(
            *pool,
            amount_a,
            amount_b,
        ) <= u64::MAX ==> {
            let shares = shares_at_ratio(*pool, amount_a, amount_b);
            &&& shares == 0 ==> res == Err::<LiquidityQuote, AamErrorCode>(
                AamErrorCode::InsufficientLiquidity,
            )
            &&& shares > 0 ==> res is Ok && res->Ok_0.shares_minted == shares
        },
        pool.is_active() && amount_a > 0 && amount_b > 0 && shares_at_ratio(
            *pool,
            amount_a,
            amount_b,
        ) > u64::MAX ==> res == Err::<LiquidityQuote, AamErrorCode>(AamErrorCode::MathOverflow),
        res matches Ok(quote) ==> quote.shares_minted > 0 && quote.charged_a <= amount_a
            && quote.charged_b <= amount_b,
{
    if amount_a == 0 || amount_b == 0 {
        return Err(AamErrorCode::ZeroAmount);
    }
    let supply: u64 = pool.lp_supply;
    let reserve_a: u64 = pool.token_a_reserves;
    let reserve_b: u64 = pool.token_b_reserves;
    if supply == 0 {
        let product: u64 = match amount_a.checked_mul(amount_b) {
            Some(p) => p,
            None => {
                return Err(AamErrorCode::MathOverflow);
            },
        };
        let shares: u64 = match isqrt(product).checked_sub(MINIMUM_LIQUIDITY) {
            Some(s) => s,
            None => {
                return Err(AamErrorCode::InsufficientInitialLiquidity);
            },
        };
        if shares == 0 {
            return Err(AamErrorCode::InsufficientInitialLiquidity);
        }
        Ok(LiquidityQuote { shares_minted: shares, charged_a: amount_a, charged_b: amount_b })
    } else {
        let from_a: u128 = match mul_div_wide(amount_a, supply, reserve_a) {
            Ok(s) => s,
            Err(e) => {
                return Err(e);
            },
        };
        let from_b: u128 = match mul_div_wide(amount_b, supply, reserve_b) {
            Ok(s) => s,
            Err(e) => {
                return Err(e);
            },
        };
        let scarcer: u128 = if from_a <= from_b {
            from_a
        } else {
            from_b
        };
        if scarcer > u64::MAX as u128 {
            return Err(AamErrorCode::MathOverflow);
        }
        let shares: u64 = scarcer as u64;
        if shares == 0 {
            return Err(AamErrorCode::InsufficientLiquidity);
        }
        proof {
            lemma_charge_at_most_offer(
                amount_a as nat,
                supply as nat,
                reserve_a as nat,
                shares as nat,
            );
            lemma_charge_at_most_offer(
                amount_b as nat,
                supply as nat,
                reserve_b as nat,
                shares as nat,
            );
        }
        let charged_a: u64 = match mul_div(shares, reserve_a, supply) {
            Ok(c) => c,
            Err(e) => {
                return Err(e);
            },
        };
        let charged_b: u64 = match mul_div(shares, reserve_b, supply) {
            Ok(c) => c,
            Err(e) => {
                return Err(e);
            },
        };
        if amount_a < charged_a || amount_b < charged_b {
            return Err(AamErrorCode::LiquidityRatioMismatch);
        }
        Ok(LiquidityQuote { shares_minted: shares, charged_a, charged_b })
    }
}

/// Records a completed deposit: the balances that the two vaults hold after
/// the transfers, and the supply of shares after the mint, as the custody
/// reports them. They are taken as they come.
pub fn settle_liquidity(pool: &mut PoolState, vault_a: u64, vault_b: u64, lp_supply: u64)
    ensures
        *final(pool) == (PoolState {
            lp_supply,
            token_a_reserves: vault_a,
            token_b_reserves: vault_b,
            ..*old(pool)
        }),
{
    pool.lp_supply = lp_supply;
    pool.token_a_reserves = vault_a;
    pool.token_b_reserves = vault_b;
}

} // verus!
