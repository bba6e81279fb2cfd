use margin_engine::data::{BorrowAccrual, Cache, CollateralConfig, Margin, OracleEntry, State};
use margin_engine::error::ErrorCode;
use margin_engine::math::UNIT;
use margin_engine::valuation::{calc_actual_collateral, collateral_value, get_actual_collateral,
    get_actual_collateral_vec, get_total_collateral};

fn one_asset_state(symbol: u64, weight: u16) -> State {
    State {
        total_markets: 0,
        total_collaterals: 1,
        collaterals: vec![CollateralConfig { oracle_symbol: symbol, weight, liq_fee: 0 }],
        perp_markets: vec![],
    }
}

fn one_asset_cache(symbol: u64, price: i64) -> Cache {
    Cache {
        marks: vec![],
        funding_cache: vec![],
        borrow_cache: vec![BorrowAccrual {
            supply_multiplier: UNIT as u64,
            borrow_multiplier: UNIT as u64,
        }],
        oracles: vec![OracleEntry { symbol, price }],
    }
}

#[test]
fn actual_collateral_applies_supply_multiplier_to_deposits() {
    // 1.5x accrual on a positive balance.
    assert_eq!(calc_actual_collateral(1000, 1_500_000, 9_000_000), Ok(1500));
}

#[test]
fn actual_collateral_applies_borrow_multiplier_to_borrows() {
    // 1.5x accrual on a negative balance; the supply multiplier is ignored.
    assert_eq!(calc_actual_collateral(-1000, 9_000_000, 1_500_000), Ok(-1500));
}

#[test]
fn actual_collateral_monotone_in_supply_multiplier() {
    let lo = calc_actual_collateral(1000, 1_500_000, 0).unwrap();
    let hi = calc_actual_collateral(1000, 2_000_000, 0).unwrap();
    assert_eq!(lo, 1500);
    assert_eq!(hi, 2000);
    assert!(lo <= hi);
}

#[test]
fn actual_collateral_debt_grows_with_borrow_multiplier() {
    let lo = calc_actual_collateral(-1000, 0, 1_500_000).unwrap();
    let hi = calc_actual_collateral(-1000, 0, 2_000_000).unwrap();
    assert_eq!(lo, -1500);
    assert_eq!(hi, -2000);
    assert!(hi <= lo);
}

#[test]
fn actual_collateral_overflow_is_an_error() {
    assert_eq!(
        calc_actual_collateral(i64::MAX, 2_000_000, 1_000_000),
        Err(ErrorCode::Overflow)
    );
}

#[test]
fn get_actual_collateral_reads_the_indexed_balance() {
    let margin = Margin { collateral: vec![5, -7] };
    assert_eq!(get_actual_collateral(0, &margin, UNIT as u64, UNIT as u64), Ok(5));
    assert_eq!(get_actual_collateral(1, &margin, UNIT as u64, UNIT as u64), Ok(-7));
}

#[test]
fn zero_balance_asset_needs_no_price() {
    // The asset's symbol is absent from the oracle table, yet a zero balance
    // is excluded from the sum instead of failing the valuation.
    let state = one_asset_state(42, 1000);
    let cache = one_asset_cache(999, 5 * UNIT);
    let margin = Margin { collateral: vec![0] };
    assert_eq!(collateral_value(&margin, &state, &cache, false), Ok(0));
    assert_eq!(collateral_value(&margin, &state, &cache, true), Ok(0));
}

#[test]
fn nonzero_balance_without_price_fails() {
    let state = one_asset_state(42, 1000);
    let cache = one_asset_cache(999, 5 * UNIT);
    let margin = Margin { collateral: vec![5] };
    assert_eq!(
        collateral_value(&margin, &state, &cache, false),
        Err(ErrorCode::PriceUnavailable)
    );
}

#[test]
fn positive_value_is_weighted_negative_is_not() {
    let state = one_asset_state(7, 500);
    let cache = one_asset_cache(7, 2 * UNIT);
    // Deposit of 1000 at price 2.0: 2000 unweighted, halved by weight 500.
    let deposit = Margin { collateral: vec![1000] };
    assert_eq!(collateral_value(&deposit, &state, &cache, false), Ok(2000));
    assert_eq!(collateral_value(&deposit, &state, &cache, true), Ok(1000));
    // Borrow of 1000 at price 2.0: full debt counts even when weighted.
    let borrow = Margin { collateral: vec![-1000] };
    assert_eq!(collateral_value(&borrow, &state, &cache, false), Ok(-2000));
    assert_eq!(collateral_value(&borrow, &state, &cache, true), Ok(-2000));
}

#[test]
fn total_collateral_is_the_weighted_sum() {
    let state = one_asset_state(7, 500);
    let cache = one_asset_cache(7, 2 * UNIT);
    let margin = Margin { collateral: vec![1000] };
    assert_eq!(get_total_collateral(&margin, &cache, &state), Ok(1000));
}

#[test]
fn collateral_vec_has_one_entry_per_active_slot() {
    let state = State {
        total_markets: 0,
        total_collaterals: 3,
        collaterals: vec![
            CollateralConfig { oracle_symbol: 7, weight: 500, liq_fee: 0 },
            // Empty configuration slot: contributes no entry at all.
            CollateralConfig { oracle_symbol: 0, weight: 1000, liq_fee: 0 },
            CollateralConfig { oracle_symbol: 9, weight: 1000, liq_fee: 0 },
        ],
        perp_markets: vec![],
    };
    let accrual = BorrowAccrual { supply_multiplier: UNIT as u64, borrow_multiplier: UNIT as u64 };
    let cache = Cache {
        marks: vec![],
        funding_cache: vec![],
        borrow_cache: vec![accrual, accrual, accrual],
        oracles: vec![
            OracleEntry { symbol: 7, price: 2 * UNIT },
            OracleEntry { symbol: 9, price: 3 * UNIT },
        ],
    };
    let margin = Margin { collateral: vec![1000, 555, 0] };
    // Active slots: value 2000 halved to 1000; a zero balance contributes 0.
    assert_eq!(
        get_actual_collateral_vec(&margin, &state, &cache, true),
        Ok(vec![1000, 0])
    );
}
