//! Pricing and accounting core of a two-asset constant-product market maker.
//!
//! A [`PoolState`] records the two reserves of a trading pair, the supply of
//! its liquidity shares and its fee. The operations compute how those numbers
//! change. None of them moves an asset: they compute against the record, the
//! caller moves the assets, and the settle functions then record the balances
//! that the custody reports.

pub mod errors;
pub mod instructions;
pub mod math;
pub mod state;

pub use errors::AamErrorCode;
pub use instructions::initialization::{initialize_pool, InitializePool};
pub use instructions::liquidity::{add_liquidity, settle_liquidity, LiquidityQuote, MINIMUM_LIQUIDITY};
pub use instructions::swap::{settle_swap, swap};
pub use state::address::Address;
pub use state::pool_state::PoolState;
