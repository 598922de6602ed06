//! Swaps: the output of one asset for an input of the other, at a constant
//! product of the reserves and with the fee taken from the input.

use vstd::prelude::*;
use crate::errors::AamErrorCode;
use crate::math::{lemma_floor_div_at_least, lemma_floor_div_at_most, lemma_floor_div_bounds};
use crate::state::address::Address;
use crate::state::pool_state::PoolState;

verus! {

/// The fee on `amount_in` at `fee_bps` basis points, rounded down.
pub open spec fn fee_amount(amount_in: nat, fee_bps: nat) -> nat {
    amount_in * fee_bps / 10_000
}

/// What is left of `amount_in` once the fee is taken.
pub open spec fn amount_after_fee(amount_in: nat, fee_bps: nat) -> int {
    amount_in - fee_amount(amount_in, fee_bps)
}

/// The output for `net_in` added to `reserve_in`, at a constant product of
/// the two reserves, rounded down.
pub open spec fn output_at_constant_product(reserve_in: nat, reserve_out: nat, net_in: nat) -> nat {
    reserve_out * net_in / (reserve_in + net_in)
}

/// The output of a swap of `amount_in` at `fee_bps` basis points.
pub open spec fn swap_output(reserve_in: nat, reserve_out: nat, amount_in: nat, fee_bps: nat) -> nat
    recommends
        fee_amount(amount_in, fee_bps) <= amount_in,
{
    output_at_constant_product(
        reserve_in,
        reserve_out,
        amount_after_fee(amount_in, fee_bps) as nat,
    )
}

/// The reserves of the asset that comes in and of the asset that goes out,
/// in this order, where `from` and `to` are the two assets of the pool.
pub open spec fn swap_reserves(pool: PoolState, from: Address, to: Address) -> Option<(u64, u64)> {
    if from == pool.token_a_mint {
        if to == pool.token_b_mint {
            Some((pool.token_a_reserves, pool.token_b_reserves))
        } else {
            None
        }
    } else if from == pool.token_b_mint {
        if to == pool.token_a_mint {
            Some((pool.token_b_reserves, pool.token_a_reserves))
        } else {
            None
        }
    } else {
        None
    }
}

/// The outcome of `swap` on every input.
pub open spec fn swap_outcome(
    pool: PoolState,
    from: Address,
    to: Address,
    amount_in: u64,
    minimum_output_amount: u64,
) -> Result<u64, AamErrorCode> {
    if from == to {
        Err(AamErrorCode::SameTokenSwap)
    } else if amount_in == 0 {
        Err(AamErrorCode::ZeroAmount)
    } else {
        match swap_reserves(pool, from, to) {
            None => Err(AamErrorCode::InvalidMint),
            Some((reserve_in, reserve_out)) => {
                let fee_bps = pool.trading_fees as nat;
                let output = swap_output(
                    reserve_in as nat,
                    reserve_out as nat,
                    amount_in as nat,
                    fee_bps,
                );
                if reserve_in == 0 || reserve_out == 0 {
                    Err(AamErrorCode::InsufficientLiquidity)
                } else if fee_amount(amount_in as nat, fee_bps) > amount_in {
                    Err(AamErrorCode::MathOverflow)
                } else if output < minimum_output_amount {
                    Err(AamErrorCode::MinimumOutputBalanceExceed)
                } else {
                    Ok(output as u64)
                }
            },
        }
    }
}

/// The output at a constant product is at most the reserve it is paid from,
/// and less than it where the other reserve is positive.
pub proof fn lemma_output_below_reserve(reserve_in: nat, reserve_out: nat, net_in: nat)
    requires
        reserve_in + net_in > 0,
    ensures
        output_at_constant_product(reserve_in, reserve_out, net_in) <= reserve_out,
        reserve_in > 0 && reserve_out > 0 ==> output_at_constant_product(
            reserve_in,
            reserve_out,
            net_in,
        ) < reserve_out,
{
    let total = (reserve_in + net_in) as int;
    let output = output_at_constant_product(reserve_in, reserve_out, net_in) as int;
    assert(0 <= reserve_out * net_in) by (nonlinear_arith);
    lemma_floor_div_bounds((reserve_out * net_in) as int, total);
    assert(reserve_out * net_in <= total * reserve_out) by (nonlinear_arith)
        requires
            total == reserve_in + net_in,
    ;
    lemma_floor_div_at_most((reserve_out * net_in) as int, total, reserve_out as int);
    if reserve_in > 0 && reserve_out > 0 {
        assert(output < reserve_out) by (nonlinear_arith)
            requires
                total * output <= reserve_out * net_in,
                total == reserve_in + net_in,
                reserve_in > 0,
                reserve_out > 0,
                0 <= output <= reserve_out,
        ;
    }
}

/// The fee at a rate of at most 10 000 basis points is at most the input,
/// and what is left after it does not shrink when the input grows.
pub proof fn lemma_amount_after_fee_grows_with_input(smaller: nat, larger: nat, fee_bps: nat)
    requires
        smaller <= larger,
        fee_bps <= 10_000,
    ensures
        0 <= amount_after_fee(smaller, fee_bps) <= amount_after_fee(larger, fee_bps),
{
    let fee_smaller = fee_amount(smaller, fee_bps) as int;
    let fee_larger = fee_amount(larger, fee_bps) as int;
    assert(0 <= smaller * fee_bps <= 10_000 * smaller) by (nonlinear_arith)
        requires
            fee_bps <= 10_000,
    ;
    assert(0 <= larger * fee_bps) by (nonlinear_arith);
    assert(larger * fee_bps <= smaller * fee_bps + 10_000 * (larger - smaller))
        by (nonlinear_arith)
        requires
            smaller <= larger,
            fee_bps <= 10_000,
    ;
    lemma_floor_div_bounds((smaller * fee_bps) as int, 10_000);
    lemma_floor_div_bounds((larger * fee_bps) as int, 10_000);
    lemma_floor_div_at_most((smaller * fee_bps) as int, 10_000, smaller as int);
    lemma_floor_div_at_most(
        (larger * fee_bps) as int,
        10_000,
        fee_smaller + (larger - smaller) + 1,
    );
    assert(fee_larger <= fee_smaller + (larger - smaller));
}

/// What is left after the fee does not grow when the rate of the fee grows.
pub proof fn lemma_amount_after_fee_shrinks_with_rate(amount_in: nat, lower: nat, higher: nat)
    requires
        lower <= higher <= 10_000,
    ensures
        0 <= amount_after_fee(amount_in, higher) <= amount_after_fee(amount_in, lower),
{
    assert(0 <= amount_in * lower <= amount_in * higher) by (nonlinear_arith)
        requires
            lower <= higher,
    ;
    crate::math::lemma_floor_div_monotone(
        (amount_in * lower) as int,
        (amount_in * higher) as int,
        10_000,
    );
    lemma_amount_after_fee_grows_with_input(amount_in, amount_in, higher);
}

/// The output at a constant product does not shrink when more comes in.
pub proof fn lemma_output_grows_with_net_input(
    reserve_in: nat,
    reserve_out: nat,
    smaller: nat,
    larger: nat,
)
    requires
        reserve_in > 0,
        smaller <= larger,
    ensures
        output_at_constant_product(reserve_in, reserve_out, smaller) <= output_at_constant_product(
            reserve_in,
            reserve_out,
            larger,
        ),
{
    let output = output_at_constant_product(reserve_in, reserve_out, smaller) as int;
    let total_smaller = (reserve_in + smaller) as int;
    let total_larger = (reserve_in + larger) as int;
    assert(0 <= reserve_out * smaller) by (nonlinear_arith);
    assert(0 <= reserve_out * larger) by (nonlinear_arith);
    lemma_floor_div_bounds((reserve_out * smaller) as int, total_smaller);
    lemma_output_below_reserve(reserve_in, reserve_out, smaller);
    assert(total_larger * output <= reserve_out * larger) by (nonlinear_arith)
        requires
            total_smaller * output <= reserve_out * smaller,
            total_larger == total_smaller + (larger - smaller),
            0 <= output <= reserve_out,
            smaller <= larger,
    ;
    lemma_floor_div_at_least((reserve_out * larger) as int, total_larger, output);
}

/// The output of a swap does not shrink when the input grows, the reserves
/// and the fee being the same. It need not grow: rounding down can give two
/// inputs the same output.
pub proof fn lemma_swap_output_grows_with_input(
    reserve_in: nat,
    reserve_out: nat,
    fee_bps: nat,
    smaller: nat,
    larger: nat,
)
    requires
        reserve_in > 0,
        fee_bps <= 10_000,
        smaller <= larger,
    ensures
        swap_output(reserve_in, reserve_out, smaller, fee_bps) <= swap_output(
            reserve_in,
            reserve_out,
            larger,
            fee_bps,
        ),
{
    lemma_amount_after_fee_grows_with_input(smaller, larger, fee_bps);
    lemma_output_grows_with_net_input(
        reserve_in,
        reserve_out,
        amount_after_fee(smaller, fee_bps) as nat,
        amount_after_fee(larger, fee_bps) as nat,
    );
}

/// The output of a swap does not grow when the fee grows, the reserves and
/// the input being the same. It need not shrink: rounding down can give two
/// fees the same output.
pub proof fn lemma_swap_output_shrinks_with_fee(
    reserve_in: nat,
    reserve_out: nat,
    amount_in: nat,
    lower: nat,
    higher: nat,
)
    requires
        reserve_in > 0,
        lower <= higher <= 10_000,
    ensures
        swap_output(reserve_in, reserve_out, amount_in, higher) <= swap_output(
            reserve_in,
            reserve_out,
            amount_in,
            lower,
        ),
{
    lemma_amount_after_fee_shrinks_with_rate(amount_in, lower, higher);
    lemma_output_grows_with_net_input(
        reserve_in,
        reserve_out,
        amount_after_fee(amount_in, higher) as nat,
        amount_after_fee(amount_in, lower) as nat,
    );
}

/// A swap never lowers the product of the reserves: with the whole input
/// added to one reserve and the output taken from the other, the product is
/// at least what it was. It is larger wherever a fee was taken or the output
/// was rounded down, and the same where neither happened. The reserve that
/// pays stays positive.
pub proof fn lemma_swap_keeps_constant_product(
    reserve_in: nat,
    reserve_out: nat,
    amount_in: nat,
    fee_bps: nat,
)
    requires
        reserve_in > 0,
        reserve_out > 0,
        fee_bps <= 10_000,
    ensures
        ({
            let net_in = amount_after_fee(amount_in, fee_bps) as nat;
            let output = swap_output(reserve_in, reserve_out, amount_in, fee_bps);
            let before = reserve_in * reserve_out;
            let after = (reserve_in + amount_in) * (reserve_out - output);
            let exact = (reserve_out * net_in) % (reserve_in + net_in) == 0;
            &&& output < reserve_out
            &&& after >= before
            &&& fee_amount(amount_in, fee_bps) > 0 ==> after > before
            &&& !exact ==> after > before
            &&& fee_amount(amount_in, fee_bps) == 0 && exact ==> after == before
        }),
{
    lemma_amount_after_fee_grows_with_input(amount_in, amount_in, fee_bps);
    let fee = fee_amount(amount_in, fee_bps) as int;
    let net_in = amount_after_fee(amount_in, fee_bps) as nat;
    let output = swap_output(reserve_in, reserve_out, amount_in, fee_bps) as int;
    let total = (reserve_in + net_in) as int;
    let numerator = (reserve_out * net_in) as int;
    let remainder = numerator % total;
    lemma_output_below_reserve(reserve_in, reserve_out, net_in);
    assert(0 <= reserve_out * net_in) by (nonlinear_arith);
    vstd::arithmetic::div_mod::lemma_fundamental_div_mod(numerator, total);
    vstd::arithmetic::div_mod::lemma_mod_pos_bound(numerator, total);
    let slack = reserve_out - output;
    assert((reserve_in + amount_in) * slack == reserve_in * reserve_out + remainder + fee * slack)
        by (nonlinear_arith)
        requires
            numerator == total * output + remainder,
            numerator == reserve_out * net_in,
            total == reserve_in + net_in,
            amount_in == net_in + fee,
            slack == reserve_out - output,
    ;
    assert(fee > 0 ==> fee * slack > 0) by (nonlinear_arith)
        requires
            slack > 0,
    ;
    assert(fee == 0 ==> fee * slack == 0) by (nonlinear_arith);
    assert(fee * slack >= 0) by (nonlinear_arith)
        requires
            fee >= 0,
            slack > 0,
    ;
}

/// The pool after a swap that the custody carried out to the letter: the
/// input added to the reserve of `from`, the output taken from the other.
pub open spec fn pool_after_swap(
    pool: PoolState,
    from: Address,
    amount_in: u64,
    amount_out: u64,
) -> PoolState {
    if from == pool.token_a_mint {
        PoolState {
            token_a_reserves: (pool.token_a_reserves + amount_in) as u64,
            token_b_reserves: (pool.token_b_reserves - amount_out) as u64,
            ..pool
        }
    } else {
        PoolState {
            token_a_reserves: (pool.token_a_reserves - amount_out) as u64,
            token_b_reserves: (pool.token_b_reserves + amount_in) as u64,
            ..pool
        }
    }
}

/// A swap keeps a pool well formed and active, and never lowers the product
/// of its reserves.
pub proof fn lemma_swap_leaves_pool_active(
    pool: PoolState,
    from: Address,
    to: Address,
    amount_in: u64,
    minimum_output_amount: u64,
)
    requires
        pool.well_formed(),
        swap_outcome(pool, from, to, amount_in, minimum_output_amount) is Ok,
        swap_reserves(pool, from, to)->Some_0.0 + amount_in <= u64::MAX,
    ensures
        ({
            let amount_out = swap_outcome(pool, from, to, amount_in, minimum_output_amount)->Ok_0;
            let settled = pool_after_swap(pool, from, amount_in, amount_out);
            &&& pool.is_active()
            &&& settled.well_formed()
            &&& settled.is_active()
            &&& settled.token_a_reserves * settled.token_b_reserves >= pool.token_a_reserves
                * pool.token_b_reserves
        }),
{
    let (reserve_in, reserve_out) = swap_reserves(pool, from, to)->Some_0;
    lemma_swap_keeps_constant_product(
        reserve_in as nat,
        reserve_out as nat,
        amount_in as nat,
        pool.trading_fees as nat,
    );
    let amount_out = swap_outcome(pool, from, to, amount_in, minimum_output_amount)->Ok_0;
    let settled = pool_after_swap(pool, from, amount_in, amount_out);
    let grown = reserve_in + amount_in;
    let shrunk = reserve_out - amount_out;
    if from == pool.token_a_mint {
        assert(settled.token_a_reserves * settled.token_b_reserves == grown * shrunk);
    } else {
        assert(settled.token_a_reserves * settled.token_b_reserves == grown * shrunk)
            by (nonlinear_arith)
            requires
                settled.token_a_reserves == shrunk,
                settled.token_b_reserves == grown,
        ;
        assert(pool.token_a_reserves * pool.token_b_reserves == reserve_in * reserve_out)
            by (nonlinear_arith)
            requires
                pool.token_a_reserves == reserve_out,
                pool.token_b_reserves == reserve_in,
        ;
    }
}

/// Computes the output of a swap of `amount_in` of the asset `from` for the
/// asset `to`.
///
/// Refused, in this order: with `SameTokenSwap` where `from` is `to`; with
/// `ZeroAmount` where `amount_in` is zero; with `InvalidMint` unless `from`
/// and `to` are the two assets of the pool; with `InsufficientLiquidity`
/// where a reserve is zero; with `MathOverflow` where the fee exceeds the
/// input, which no fee of at most 10 000 basis points does; with
/// `MinimumOutputBalanceExceed` where the output is below
/// `minimum_output_amount`.
///
/// The pool is read, never written: a refused call cannot alter it.
pub fn swap(
    pool: &PoolState,
    from: &Address,
    to: &Address,
    amount_in: u64,
    minimum_output_amount: u64,
) -> (res: Result<u64, AamErrorCode>)
    ensures
        res == swap_outcome(*pool, *from, *to, amount_in, minimum_output_amount),
        *from == *to ==> res == Err::<u64, AamErrorCode>(AamErrorCode::SameTokenSwap),
        *from != *to && amount_in == 0 ==> res == Err::<u64, AamErrorCode>(
            AamErrorCode::ZeroAmount,
        ),
        *from != *to && amount_in > 0 && swap_reserves(*pool, *from, *to) is None ==> res == Err::<
            u64,
            AamErrorCode,
        >(AamErrorCode::InvalidMint),
        res matches Ok(amount_out) ==> {
            &&& swap_reserves(*pool, *from, *to) matches Some((reserve_in, reserve_out))
            &&& amount_out == swap_output(
                reserve_in as nat,
                reserve_out as nat,
                amount_in as nat,
                pool.trading_fees as nat,
            )
            &&& minimum_output_amount <= amount_out < reserve_out
        },
{
    if *from == *to {
        return Err(AamErrorCode::SameTokenSwap);
    }
    if amount_in == 0 {
        return Err(AamErrorCode::ZeroAmount);
    }
    let reserve_in: u64;
    let reserve_out: u64;
    if *from == pool.token_a_mint {
        if !(*to == pool.token_b_mint) {
            return Err(AamErrorCode::InvalidMint);
        }
        reserve_in = pool.token_a_reserves;
        reserve_out = pool.token_b_reserves;
    } else if *from == pool.token_b_mint {
        if !(*to == pool.token_a_mint) {
            return Err(AamErrorCode::InvalidMint);
        }
        reserve_in = pool.token_b_reserves;
        reserve_out = pool.token_a_reserves;
    } else {
        return Err(AamErrorCode::InvalidMint);
    }
    if reserve_in == 0 || reserve_out == 0 {
        return Err(AamErrorCode::InsufficientLiquidity);
    }
    let fee_bps: u128 = pool.trading_fees as u128;
    let amount_in_wide: u128 = amount_in as u128;
    assert(0 <= amount_in_wide * fee_bps <= 0xFFFF_FFFF_FFFF_FFFF * 0xFFFF) by (nonlinear_arith)
        requires
            0 <= amount_in_wide <= 0xFFFF_FFFF_FFFF_FFFF,
            0 <= fee_bps <= 0xFFFF,
    ;
    let fee: u128 = amount_in_wide * fee_bps / 10_000;
    let net_in: u128 = match amount_in_wide.checked_sub(fee) {
        Some(n) => n,
        None => {
            return Err(AamErrorCode::MathOverflow);
        },
    };
    assert(0 <= reserve_out * net_in <= 0xFFFF_FFFF_FFFF_FFFF * 0xFFFF_FFFF_FFFF_FFFF)
        by (nonlinear_arith)
        requires
            0 <= reserve_out <= 0xFFFF_FFFF_FFFF_FFFF,
            0 <= net_in <= 0xFFFF_FFFF_FFFF_FFFF,
    ;
    let numerator: u128 = (reserve_out as u128) * net_in;
    let denominator: u128 = (reserve_in as u128) + net_in;
    let output: u128 = numerator / denominator;
    proof {
        lemma_output_below_reserve(reserve_in as nat, reserve_out as nat, net_in as nat);
    }
    let amount_out: u64 = output as u64;
    if amount_out < minimum_output_amount {
        return Err(AamErrorCode::MinimumOutputBalanceExceed);
    }
    Ok(amount_out)
}

/// Records a completed swap: the balances that the two vaults hold after the
/// transfers, as the custody reports them. They are taken as they come.
pub fn settle_swap(pool: &mut PoolState, vault_a: u64, vault_b: u64)
    ensures
        *final(pool) == (PoolState {
            token_a_reserves: vault_a,
            token_b_reserves: vault_b,
            ..*old(pool)
        }),
{
    pool.token_a_reserves = vault_a;
    pool.token_b_reserves = vault_b;
}

} // verus!
