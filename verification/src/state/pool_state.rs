//! The persistent record of one trading pair.

use vstd::prelude::*;
use crate::state::address::Address;

verus! {

/// The largest fee, in basis points: the whole of the input.
pub const FEE_DENOMINATOR: u16 = 10_000;

/// The record of one trading pair.
#[derive(Clone, Copy, Debug, PartialEq, Eq)]
pub struct PoolState {
    /// The first reserve asset.
    pub token_a_mint: Address,
    /// The second reserve asset.
    pub token_b_mint: Address,
    /// The liquidity-share token.
    pub lp_token_mint: Address,
    /// The vault that holds the first asset.
    pub token_a_vault: Address,
    /// The vault that holds the second asset.
    pub token_b_vault: Address,
    /// The authority that alone can move the vaults.
    pub authority: Address,
    /// The bump with which `authority` was derived.
    pub authority_bump: u8,
    /// The trading fee in basis points.
    pub trading_fees: u16,
    /// Set once the pool has been initialized.
    pub is_initialized: bool,
    /// The liquidity shares outstanding.
    pub lp_supply: u64,
    /// The balance held of the first asset.
    pub token_a_reserves: u64,
    /// The balance held of the second asset.
    pub token_b_reserves: u64,
}

impl PoolState {
    /// No shares are outstanding and nothing is held.
    pub open spec fn is_empty(&self) -> bool {
        self.lp_supply == 0 && self.token_a_reserves == 0 && self.token_b_reserves == 0
    }

    /// Shares are outstanding and something is held of both assets.
    pub open spec fn is_active(&self) -> bool {
        self.lp_supply > 0 && self.token_a_reserves > 0 && self.token_b_reserves > 0
    }

    /// The invariant of an initialized pool: two distinct assets, a fee of at
    /// most the whole, and either empty or active.
    pub open spec fn well_formed(&self) -> bool {
        &&& self.is_initialized
        &&& self.token_a_mint != self.token_b_mint
        &&& self.trading_fees <= FEE_DENOMINATOR
        &&& (self.is_empty() || self.is_active())
    }

    /// The record before initialization: every identifier and number zero.
    pub open spec fn is_blank(&self) -> bool {
        &&& !self.is_initialized
        &&& self.is_empty()
        &&& self.trading_fees == 0
        &&& self.authority_bump == 0
        &&& self.token_a_mint.bytes@ == Seq::new(32, |i: int| 0u8)
        &&& self.token_b_mint.bytes@ == Seq::new(32, |i: int| 0u8)
        &&& self.lp_token_mint.bytes@ == Seq::new(32, |i: int| 0u8)
        &&& self.token_a_vault.bytes@ == Seq::new(32, |i: int| 0u8)
        &&& self.token_b_vault.bytes@ == Seq::new(32, |i: int| 0u8)
        &&& self.authority.bytes@ == Seq::new(32, |i: int| 0u8)
    }

    /// A record that has not been initialized.
    pub fn new() -> (pool: PoolState)
        ensures
            pool.is_blank(),
    {
        let zero: Address = Address::new([0u8; 32]);
        let pool = PoolState {
            token_a_mint: zero,
            token_b_mint: zero,
            lp_token_mint: zero,
            token_a_vault: zero,
            token_b_vault: zero,
            authority: zero,
            authority_bump: 0,
            trading_fees: 0,
            is_initialized: false,
            lp_supply: 0,
            token_a_reserves: 0,
            token_b_reserves: 0,
        };
        assert(zero.bytes@ =~= Seq::new(32, |i: int| 0u8));
        pool
    }
}

} // verus!
