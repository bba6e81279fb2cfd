use margin_engine::data::{AccountId, BorrowAccrual, Cache, CollateralConfig, Control, Margin,
    OracleEntry, Position, State};
use margin_engine::error::ErrorCode;
use margin_engine::liquidation::{calc_max_reducible, estimate_spot_liquidation_size,
    get_max_reducible_assets};
use margin_engine::math::UNIT;
use margin_engine::orders::{has_open_orders, largest_open_order};

fn resting(bids: u64, asks: u64) -> Position {
    Position {
        key: AccountId { words: [1, 0, 0, 0] },
        pos_size: 0,
        native_pc_total: 0,
        realized_pnl: 0,
        coin_on_bids: bids,
        coin_on_asks: asks,
        funding_index: 0,
    }
}

fn marks_cache(marks: Vec<i64>) -> Cache {
    Cache { marks, funding_cache: vec![], borrow_cache: vec![], oracles: vec![] }
}

#[test]
fn no_markets_is_an_error() {
    let cache = marks_cache(vec![]);
    let control = Control { open_orders_agg: vec![] };
    assert_eq!(largest_open_order(&cache, &control), Err(ErrorCode::NoPositions));
    assert_eq!(has_open_orders(&cache, &control), Err(ErrorCode::NoPositions));
}

#[test]
fn all_zero_resting_orders_is_none_not_an_error() {
    let cache = marks_cache(vec![100 * UNIT]);
    let control = Control { open_orders_agg: vec![resting(0, 0)] };
    assert_eq!(largest_open_order(&cache, &control), Ok(None));
    assert_eq!(has_open_orders(&cache, &control), Ok(false));
}

#[test]
fn dominating_market_is_selected() {
    let cache = marks_cache(vec![UNIT, UNIT, UNIT]);
    let control = Control {
        open_orders_agg: vec![resting(5, 0), resting(10, 20), resting(3, 3)],
    };
    assert_eq!(largest_open_order(&cache, &control), Ok(Some(1)));
    assert_eq!(has_open_orders(&cache, &control), Ok(true));
}

#[test]
fn reducible_quantity_is_zero_exactly_at_the_boundary() {
    // Budget min(max(5, 0), 10) * 1000 equals the weighted sum of 5000.
    assert_eq!(calc_max_reducible(5_000, 5, 10, 100, UNIT, 50), Ok(0));
}

#[test]
fn reducible_quantity_covers_the_deficit_minimally() {
    // Deficit 1000 permille-units; denominator 1.0 * (100 - 50) = 50.
    // ceil(1000 / 50) = 20, and 20 * 50 == 1000 exactly.
    assert_eq!(calc_max_reducible(6_000, 5, 10, 100, UNIT, 50), Ok(20));
    // One permille-unit more of deficit needs one more unit.
    assert_eq!(calc_max_reducible(6_001, 5, 10, 100, UNIT, 50), Ok(21));
}

#[test]
fn degenerate_denominator_is_an_error() {
    // Zero price, and a net factor advantage that is not positive.
    assert_eq!(calc_max_reducible(6_000, 5, 10, 100, 0, 50), Err(ErrorCode::DivisionByZero));
    assert_eq!(
        calc_max_reducible(6_000, 5, 10, 100, UNIT, 200),
        Err(ErrorCode::DivisionByZero)
    );
}

#[test]
fn reducible_assets_over_a_borrowed_account() {
    // No perpetual markets; one borrowed asset of 500_000 micro-units at
    // price 1.0 and weight 1000: exposure sum 100 * 500_000, budget
    // min(0, -500_000) * 1000, denominator 1.0 * 100.
    let infos = vec![CollateralConfig { oracle_symbol: 7, weight: 1000, liq_fee: 0 }];
    let accrual = BorrowAccrual { supply_multiplier: UNIT as u64, borrow_multiplier: UNIT as u64 };
    let cache = Cache {
        marks: vec![],
        funding_cache: vec![],
        borrow_cache: vec![accrual],
        oracles: vec![OracleEntry { symbol: 7, price: UNIT }],
    };
    let amount = get_max_reducible_assets(
        100,
        0,
        UNIT,
        -500_000,
        0,
        1,
        &cache,
        &vec![],
        &vec![],
        &vec![-500_000],
        &infos,
    );
    assert_eq!(amount, Ok(5_500_000));
}

#[test]
fn liquidation_size_in_quote_units_with_and_without_fudge() {
    let state = State {
        total_markets: 0,
        total_collaterals: 1,
        collaterals: vec![CollateralConfig { oracle_symbol: 7, weight: 1000, liq_fee: 0 }],
        perp_markets: vec![],
    };
    let cache = Cache {
        marks: vec![],
        funding_cache: vec![],
        borrow_cache: vec![BorrowAccrual {
            supply_multiplier: UNIT as u64,
            borrow_multiplier: UNIT as u64,
        }],
        oracles: vec![OracleEntry { symbol: 7, price: UNIT }],
    };
    let margin = Margin { collateral: vec![-500_000] };
    let control = Control { open_orders_agg: vec![] };
    assert_eq!(
        estimate_spot_liquidation_size(&margin, &control, &state, &cache, 0, 0, None),
        Ok(5_500_000)
    );
    // A 1.1x micro-scaled safety multiplier inflates the estimate.
    let fudged = estimate_spot_liquidation_size(
        &margin,
        &control,
        &state,
        &cache,
        0,
        0,
        Some(1_100_000),
    );
    assert_eq!(fudged, Ok(6_050_000));
}

#[test]
fn liquidation_with_missing_price_fails() {
    let state = State {
        total_markets: 0,
        total_collaterals: 0,
        collaterals: vec![CollateralConfig { oracle_symbol: 7, weight: 1000, liq_fee: 0 }],
        perp_markets: vec![],
    };
    let cache = marks_cache(vec![]);
    let margin = Margin { collateral: vec![] };
    let control = Control { open_orders_agg: vec![] };
    assert_eq!(
        estimate_spot_liquidation_size(&margin, &control, &state, &cache, 0, 0, None),
        Err(ErrorCode::PriceUnavailable)
    );
}
