//! Creation of a pool.

use vstd::prelude::*;
use crate::errors::AamErrorCode;
use crate::state::address::Address;
use crate::state::pool_state::{PoolState, FEE_DENOMINATOR};

verus! {

/// The identifiers that a pool is created with.
#[derive(Clone, Copy, Debug)]
pub struct InitializePool {
    /// The first reserve asset.
    pub token_a_mint: Address,
    /// The second reserve asset.
    pub token_b_mint: Address,
    /// The liquidity-share token.
    pub lp_token_mint: Address,
    /// The authority that alone can move the vaults.
    pub pool_authority_pda: Address,
    /// The bump with which the authority was derived.
    pub authority_bump: u8,
    /// The vault that holds the first asset.
    pub pool_token_a_vault: Address,
    /// The vault that holds the second asset.
    pub pool_token_b_vault: Address,
}

/// The record that `initialize_pool` writes: the given identifiers and fee,
/// nothing held, no shares outstanding.
pub open spec fn initial_pool(accounts: InitializePool, trading_fees: u16) -> PoolState {
    PoolState {
        token_a_mint: accounts.token_a_mint,
        token_b_mint: accounts.token_b_mint,
        lp_token_mint: accounts.lp_token_mint,
        token_a_vault: accounts.pool_token_a_vault,
        token_b_vault: accounts.pool_token_b_vault,
        authority: accounts.pool_authority_pda,
        authority_bump: accounts.authority_bump,
        trading_fees,
        is_initialized: true,
        lp_supply: 0,
        token_a_reserves: 0,
        token_b_reserves: 0,
    }
}

/// Whether `initialize_pool` succeeds, and the refusal where it does not.
pub open spec fn initialization_outcome(
    pool: PoolState,
    accounts: InitializePool,
    trading_fees: u16,
) -> Result<(), AamErrorCode> {
    if pool.is_initialized {
        Err(AamErrorCode::AlreadyInitialized)
    } else if accounts.token_a_mint == accounts.token_b_mint {
        Err(AamErrorCode::InvalidMint)
    } else if trading_fees > FEE_DENOMINATOR {
        Err(AamErrorCode::MathOverflow)
    } else {
        Ok(())
    }
}

/// Initializes `pool` for the pair of assets in `accounts`, with the fee
/// `trading_fees` in basis points.
///
/// Refused, in this order: with `AlreadyInitialized` on a record that is
/// initialized; with `InvalidMint` where the two assets are the same; with
/// `MathOverflow` where the fee is above `FEE_DENOMINATOR`, the whole of an
/// input, since such a fee is outside the range of a fee. A refused call
/// leaves the record as it was. Every record that this function writes is
/// well formed and empty.
pub fn initialize_pool(
    pool: &mut PoolState,
    accounts: &InitializePool,
    trading_fees: u16,
) -> (res: Result<(), AamErrorCode>)
    ensures
        res == initialization_outcome(*old(pool), *accounts, trading_fees),
        old(pool).is_initialized ==> res == Err::<(), AamErrorCode>(
            AamErrorCode::AlreadyInitialized,
        ),
        trading_fees > FEE_DENOMINATOR ==> res is Err,
        res is Ok <==> !old(pool).is_initialized && accounts.token_a_mint != accounts.token_b_mint
            && trading_fees <= FEE_DENOMINATOR,
        res is Err ==> *final(pool) == *old(pool),
        res is Ok ==> *final(pool) == initial_pool(*accounts, trading_fees),
        res is Ok ==> final(pool).well_formed() && final(pool).is_empty(),
{
    if pool.is_initialized {
        return Err(AamErrorCode::AlreadyInitialized);
    }
    if accounts.token_a_mint == accounts.token_b_mint {
        return Err(AamErrorCode::InvalidMint);
    }
    if trading_fees > FEE_DENOMINATOR {
        return Err(AamErrorCode::MathOverflow);
    }
    pool.token_a_mint = accounts.token_a_mint;
    pool.token_b_mint = accounts.token_b_mint;
    pool.lp_token_mint = accounts.lp_token_mint;
    pool.token_a_vault = accounts.pool_token_a_vault;
    pool.token_b_vault = accounts.pool_token_b_vault;
    pool.authority = accounts.pool_authority_pda;
    pool.authority_bump = accounts.authority_bump;
    pool.trading_fees = trading_fees;
    pool.is_initialized = true;
    pool.lp_supply = 0;
    pool.token_a_reserves = 0;
    pool.token_b_reserves = 0;
    Ok(())
}

} // verus!
