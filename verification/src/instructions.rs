//! The operations on a pool.

pub mod initialization;
pub mod liquidity;
pub mod swap;
