use aam_learning::{
    add_liquidity, settle_liquidity, AamErrorCode, Address, LiquidityQuote, PoolState,
    MINIMUM_LIQUIDITY,
};

fn id(byte: u8) -> Address {
    Address::new([byte; 32])
}

fn pool_holding(reserve_a: u64, reserve_b: u64, supply: u64) -> PoolState {
    PoolState {
        token_a_mint: id(1),
        token_b_mint: id(2),
        lp_token_mint: id(3),
        token_a_vault: id(5),
        token_b_vault: id(6),
        authority: id(4),
        authority_bump: 255,
        trading_fees: 30,
        is_initialized: true,
        lp_supply: supply,
        token_a_reserves: reserve_a,
        token_b_reserves: reserve_b,
    }
}

fn quote(shares_minted: u64, charged_a: u64, charged_b: u64) -> LiquidityQuote {
    LiquidityQuote { shares_minted, charged_a, charged_b }
}

#[test]
fn minimum_liquidity_is_one_thousand() {
    assert_eq!(MINIMUM_LIQUIDITY, 1_000);
}

#[test]
fn first_deposit_of_a_million_each() {
    let pool = pool_holding(0, 0, 0);
    assert_eq!(add_liquidity(&pool, 1_000_000, 1_000_000), Ok(quote(999_000, 1_000_000, 1_000_000)));
}

#[test]
fn first_deposit_mints_the_root_less_the_minimum() {
    let pool = pool_holding(0, 0, 0);
    assert_eq!(add_liquidity(&pool, 4_000_000, 1_000_000), Ok(quote(1_999_000, 4_000_000, 1_000_000)));
    assert_eq!(add_liquidity(&pool, 2_000_000, 1_000_000), Ok(quote(1_413_213, 2_000_000, 1_000_000)));
    assert_eq!(add_liquidity(&pool, 1_001, 1_001), Ok(quote(1, 1_001, 1_001)));
    assert_eq!(add_liquidity(&pool, 1, 1_002_001), Ok(quote(1, 1, 1_002_001)));
}

#[test]
fn first_deposit_with_a_root_of_at_most_the_minimum_is_refused() {
    let pool = pool_holding(0, 0, 0);
    let refused = Err(AamErrorCode::InsufficientInitialLiquidity);
    assert_eq!(add_liquidity(&pool, 1_000, 1_000), refused);
    assert_eq!(add_liquidity(&pool, 1_000, 1_002), refused);
    assert_eq!(add_liquidity(&pool, 1_000, 1_003), Ok(quote(1, 1_000, 1_003)));
    assert_eq!(add_liquidity(&pool, 999, 999), refused);
    assert_eq!(add_liquidity(&pool, 1, 1), refused);
    assert_eq!(add_liquidity(&pool, 1, 1_002_000), refused);
}

#[test]
fn first_deposit_whose_product_overflows_is_refused() {
    let pool = pool_holding(0, 0, 0);
    assert_eq!(add_liquidity(&pool, 1 << 32, 1 << 32), Err(AamErrorCode::MathOverflow));
    assert_eq!(add_liquidity(&pool, u64::MAX, 2), Err(AamErrorCode::MathOverflow));
    assert_eq!(
        add_liquidity(&pool, 4_294_967_295, 4_294_967_295),
        Ok(quote(4_294_966_295, 4_294_967_295, 4_294_967_295))
    );
    assert_eq!(add_liquidity(&pool, u64::MAX, 1), Ok(quote(4_294_966_295, u64::MAX, 1)));
}

#[test]
fn first_deposit_goes_by_the_supply_alone() {
    let pool = pool_holding(500, 700, 0);
    assert_eq!(add_liquidity(&pool, 1_000_000, 1_000_000), Ok(quote(999_000, 1_000_000, 1_000_000)));
}

#[test]
fn deposit_of_nothing_is_refused() {
    let empty = pool_holding(0, 0, 0);
    let active = pool_holding(1_000_000, 1_000_000, 999_000);
    for pool in [empty, active] {
        assert_eq!(add_liquidity(&pool, 0, 5), Err(AamErrorCode::ZeroAmount));
        assert_eq!(add_liquidity(&pool, 5, 0), Err(AamErrorCode::ZeroAmount));
        assert_eq!(add_liquidity(&pool, 0, 0), Err(AamErrorCode::ZeroAmount));
    }
}

#[test]
fn skewed_deposit_into_an_active_pool() {
    let pool = pool_holding(1_000_000, 1_000_000, 999_000);
    assert_eq!(add_liquidity(&pool, 100, 1), Err(AamErrorCode::InsufficientLiquidity));
    assert_eq!(add_liquidity(&pool, 100, 2), Ok(quote(1, 1, 1)));
    assert_eq!(add_liquidity(&pool, 100_000, 1_000), Ok(quote(999, 1_000, 1_000)));
    assert_eq!(add_liquidity(&pool, 1_000, 100_000), Ok(quote(999, 1_000, 1_000)));
}

#[test]
fn deposit_at_the_ratio_of_an_active_pool() {
    let pool = pool_holding(1_000_000, 1_000_000, 999_000);
    assert_eq!(add_liquidity(&pool, 1_000_000, 1_000_000), Ok(quote(999_000, 1_000_000, 1_000_000)));
    assert_eq!(add_liquidity(&pool, 500_000, 500_000), Ok(quote(499_500, 500_000, 500_000)));
    let uneven = pool_holding(2_000_000, 500_000, 1_000_000);
    assert_eq!(add_liquidity(&uneven, 200_000, 50_000), Ok(quote(100_000, 200_000, 50_000)));
    assert_eq!(add_liquidity(&uneven, 200_001, 50_003), Ok(quote(100_000, 200_000, 50_000)));
    assert_eq!(add_liquidity(&uneven, 7, 3), Ok(quote(3, 6, 1)));
}

#[test]
fn deposit_is_never_charged_more_than_it_offers() {
    let pools = [
        pool_holding(1_000_000, 1_000_000, 999_000),
        pool_holding(3, 7, 5),
        pool_holding(1_234_567, 89, 1_000),
        pool_holding(u64::MAX, u64::MAX, u64::MAX),
        pool_holding(1, u64::MAX, 77),
    ];
    let amounts: [u64; 6] = [1, 2, 99, 1_000, 123_456_789, u64::MAX];
    for pool in pools {
        for a in amounts {
            for b in amounts {
                match add_liquidity(&pool, a, b) {
                    Ok(q) => {
                        assert!(q.shares_minted > 0);
                        assert!(q.charged_a <= a);
                        assert!(q.charged_b <= b);
                    }
                    Err(e) => assert_ne!(e, AamErrorCode::LiquidityRatioMismatch),
                }
            }
        }
    }
}

#[test]
fn charges_stand_as_the_reserves_do() {
    let pools = [
        pool_holding(1_000_000, 1_000_000, 999_000),
        pool_holding(2_000_000, 500_000, 1_000_000),
        pool_holding(3, 7, 5),
        pool_holding(1_234_567, 89, 1_000),
    ];
    let amounts: [u64; 5] = [1, 7, 100, 54_321, 9_999_999];
    for pool in pools {
        let ra = pool.token_a_reserves as u128;
        let rb = pool.token_b_reserves as u128;
        for a in amounts {
            for b in amounts {
                if let Ok(q) = add_liquidity(&pool, a, b) {
                    let ca = q.charged_a as u128;
                    let cb = q.charged_b as u128;
                    assert!(ca * rb < cb * ra + ra);
                    assert!(cb * ra < ca * rb + rb);
                }
            }
        }
    }
}

#[test]
fn deposit_against_a_reserve_of_zero_is_refused() {
    assert_eq!(add_liquidity(&pool_holding(0, 10, 10), 5, 5), Err(AamErrorCode::ZeroDivision));
    assert_eq!(add_liquidity(&pool_holding(10, 0, 10), 5, 5), Err(AamErrorCode::ZeroDivision));
    assert_eq!(add_liquidity(&pool_holding(0, 0, 10), 5, 5), Err(AamErrorCode::ZeroDivision));
}

#[test]
fn deposit_mints_the_smaller_worth_however_large_the_other() {
    let pool = pool_holding(1, 1_000_000, 4);
    assert_eq!(add_liquidity(&pool, u64::MAX, 1_000_000), Ok(quote(4, 1, 1_000_000)));
    let mirrored = pool_holding(1_000_000, 1, 4);
    assert_eq!(add_liquidity(&mirrored, 1_000_000, u64::MAX), Ok(quote(4, 1_000_000, 1)));
    let full = pool_holding(1, 1, u64::MAX);
    assert_eq!(add_liquidity(&full, 2, 1), Ok(quote(u64::MAX, 1, 1)));
    assert_eq!(add_liquidity(&full, 1, 2), Ok(quote(u64::MAX, 1, 1)));
    assert_eq!(add_liquidity(&full, 1, 1), Ok(quote(u64::MAX, 1, 1)));
}

#[test]
fn deposit_whose_smaller_worth_does_not_fit_is_refused() {
    let full = pool_holding(1, 1, u64::MAX);
    assert_eq!(add_liquidity(&full, 2, 2), Err(AamErrorCode::MathOverflow));
    assert_eq!(add_liquidity(&full, u64::MAX, u64::MAX), Err(AamErrorCode::MathOverflow));
    let uneven = pool_holding(1, 2, u64::MAX);
    assert_eq!(add_liquidity(&uneven, 2, 2), Ok(quote(u64::MAX, 1, 2)));
    assert_eq!(add_liquidity(&uneven, 2, 3), Err(AamErrorCode::MathOverflow));
}

#[test]
fn zero_reserve_is_reported_before_any_overflow() {
    let second_empty = pool_holding(1, 0, u64::MAX);
    assert_eq!(add_liquidity(&second_empty, 2, 1), Err(AamErrorCode::ZeroDivision));
    assert_eq!(add_liquidity(&second_empty, 1, 1), Err(AamErrorCode::ZeroDivision));
    let first_empty = pool_holding(0, 1, u64::MAX);
    assert_eq!(add_liquidity(&first_empty, 1, 2), Err(AamErrorCode::ZeroDivision));
}

#[test]
fn refused_deposit_leaves_the_pool_as_it_was() {
    let pool = pool_holding(1_000_000, 1_000_000, 999_000);
    let before = pool;
    assert!(add_liquidity(&pool, 0, 1).is_err());
    assert!(add_liquidity(&pool, 100, 1).is_err());
    assert_eq!(pool, before);
}

#[test]
fn settle_liquidity_records_what_the_custody_reports() {
    let mut pool = pool_holding(0, 0, 0);
    let minted = add_liquidity(&pool, 1_000_000, 1_000_000).unwrap();
    settle_liquidity(&mut pool, 1_000_000, 1_000_000, minted.shares_minted);
    assert_eq!(pool, pool_holding(1_000_000, 1_000_000, 999_000));
    settle_liquidity(&mut pool, 1_500_007, 1_500_000, 1_498_500);
    assert_eq!(pool, pool_holding(1_500_007, 1_500_000, 1_498_500));
}
