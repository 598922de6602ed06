use aam_learning::{initialize_pool, AamErrorCode, Address, InitializePool, PoolState};

fn key(byte: u8) -> Address {
    Address::new([byte; 32])
}

fn pool_accounts() -> InitializePool {
    InitializePool {
        token_a_mint: key(1),
        token_b_mint: key(2),
        lp_token_mint: key(3),
        pool_authority_pda: key(4),
        authority_bump: 254,
        pool_token_a_vault: key(5),
        pool_token_b_vault: key(6),
    }
}

#[test]
fn new_pool_is_blank() {
    let pool = PoolState::new();
    assert!(!pool.is_initialized);
    assert_eq!(pool.lp_supply, 0);
    assert_eq!(pool.token_a_reserves, 0);
    assert_eq!(pool.token_b_reserves, 0);
    assert_eq!(pool.trading_fees, 0);
    assert_eq!(pool.authority_bump, 0);
    assert_eq!(pool.token_a_mint, key(0));
    assert_eq!(pool.authority, key(0));
}

#[test]
fn addresses_compare_by_their_bytes() {
    assert_eq!(key(7), key(7));
    assert_ne!(key(7), key(8));
    let mut bytes = [9u8; 32];
    bytes[31] = 10;
    assert_ne!(Address::new(bytes), key(9));
    bytes[31] = 9;
    assert_eq!(Address::new(bytes), key(9));
    assert_eq!(Address::new(bytes).bytes, bytes);
}

#[test]
fn initialize_pool_writes_the_record() {
    let mut pool = PoolState::new();
    assert_eq!(initialize_pool(&mut pool, &pool_accounts(), 30), Ok(()));
    assert_eq!(
        pool,
        PoolState {
            token_a_mint: key(1),
            token_b_mint: key(2),
            lp_token_mint: key(3),
            token_a_vault: key(5),
            token_b_vault: key(6),
            authority: key(4),
            authority_bump: 254,
            trading_fees: 30,
            is_initialized: true,
            lp_supply: 0,
            token_a_reserves: 0,
            token_b_reserves: 0,
        }
    );
}

#[test]
fn initialize_pool_refuses_an_initialized_record() {
    let mut pool = PoolState::new();
    assert_eq!(initialize_pool(&mut pool, &pool_accounts(), 30), Ok(()));
    pool.lp_supply = 999_000;
    pool.token_a_reserves = 1_000_000;
    pool.token_b_reserves = 1_000_000;
    let before = pool;
    let mut other = pool_accounts();
    other.token_a_mint = key(9);
    assert_eq!(initialize_pool(&mut pool, &other, 100), Err(AamErrorCode::AlreadyInitialized));
    assert_eq!(pool, before);
}

#[test]
fn initialize_pool_refuses_one_asset_on_both_sides() {
    let mut pool = PoolState::new();
    let before = pool;
    let mut same = pool_accounts();
    same.token_b_mint = same.token_a_mint;
    assert_eq!(initialize_pool(&mut pool, &same, 30), Err(AamErrorCode::InvalidMint));
    assert_eq!(pool, before);
    assert!(!pool.is_initialized);
}

#[test]
fn initialize_pool_reports_the_initialized_record_first() {
    let mut pool = PoolState::new();
    assert_eq!(initialize_pool(&mut pool, &pool_accounts(), 30), Ok(()));
    let mut same = pool_accounts();
    same.token_b_mint = same.token_a_mint;
    assert_eq!(initialize_pool(&mut pool, &same, 30), Err(AamErrorCode::AlreadyInitialized));
}

#[test]
fn initialize_pool_refuses_a_fee_above_the_whole() {
    for fee in [10_001u16, 20_000, u16::MAX] {
        let mut pool = PoolState::new();
        let before = pool;
        assert_eq!(initialize_pool(&mut pool, &pool_accounts(), fee), Err(AamErrorCode::MathOverflow));
        assert_eq!(pool, before);
        assert!(!pool.is_initialized);
    }
}

#[test]
fn initialize_pool_reports_equal_assets_before_the_fee() {
    let mut pool = PoolState::new();
    let mut same = pool_accounts();
    same.token_b_mint = same.token_a_mint;
    assert_eq!(initialize_pool(&mut pool, &same, 20_000), Err(AamErrorCode::InvalidMint));
    assert_eq!(initialize_pool(&mut pool, &pool_accounts(), 30), Ok(()));
    assert_eq!(
        initialize_pool(&mut pool, &pool_accounts(), 20_000),
        Err(AamErrorCode::AlreadyInitialized)
    );
    assert_eq!(pool.trading_fees, 30);
}

#[test]
fn initialize_pool_takes_the_fee_as_given() {
    let mut free = PoolState::new();
    assert_eq!(initialize_pool(&mut free, &pool_accounts(), 0), Ok(()));
    assert_eq!(free.trading_fees, 0);
    let mut whole = PoolState::new();
    assert_eq!(initialize_pool(&mut whole, &pool_accounts(), 10_000), Ok(()));
    assert_eq!(whole.trading_fees, 10_000);
}

#[test]
fn every_refusal_has_its_sentence() {
    assert_eq!(AamErrorCode::AlreadyInitialized.message(), "The pool has already been initialized.");
    assert_eq!(
        AamErrorCode::InsufficientInitialLiquidity.message(),
        "Initial liquidity must be sufficient to cover MINIMUM_LIQUIDITY."
    );
    assert_eq!(AamErrorCode::ZeroAmount.message(), "Amounts provided for liquidity are zero.");
    assert_eq!(
        AamErrorCode::InsufficientLiquidity.message(),
        "Insufficient liquidity provided for existing pool ratio."
    );
    assert_eq!(
        AamErrorCode::LiquidityRatioMismatch.message(),
        "Liquidity amounts do not match current pool ratio."
    );
    assert_eq!(AamErrorCode::MathOverflow.message(), "Integer overflow or underflow.");
    assert_eq!(AamErrorCode::ZeroDivision.message(), "Division by zero.");
    assert_eq!(AamErrorCode::InvalidMint.message(), "Invalid token mint account.");
    assert_eq!(AamErrorCode::InvalidVault.message(), "Invalid token vault account.");
    assert_eq!(AamErrorCode::MinimumOutputBalanceExceed.message(), "Minimum output balance exceed.");
    assert_eq!(AamErrorCode::SameTokenSwap.message(), "Same token swap.");
}
