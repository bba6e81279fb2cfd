use margin_engine::data::{AccountId, BorrowAccrual, Cache, CollateralConfig, FractionType,
    MfReturnOption, OracleEntry, PerpMarketConfig, Position};
use margin_engine::error::ErrorCode;
use margin_engine::fraction::{calc_weighted_sum, check_fraction_requirement};
use margin_engine::math::UNIT;
use margin_engine::perp::{calc_acc_val, get_perp_acc_params, position_notional};
use margin_engine::spot::{get_spot_borrows, spot_factor};

fn live_key() -> AccountId {
    AccountId { words: [1, 0, 0, 0] }
}

fn flat_position(pos_size: i64, native_pc_total: i64) -> Position {
    Position {
        key: live_key(),
        pos_size,
        native_pc_total,
        realized_pnl: 0,
        coin_on_bids: 0,
        coin_on_asks: 0,
        funding_index: 0,
    }
}

/// One market: a 10-unit long at mark price 100 (six asset decimals), bought
/// for exactly its current value, no funding, no realized profit and loss.
fn round_trip_cache() -> Cache {
    Cache {
        marks: vec![100 * UNIT],
        funding_cache: vec![0],
        borrow_cache: vec![],
        oracles: vec![],
    }
}

fn round_trip_markets() -> Vec<PerpMarketConfig> {
    vec![PerpMarketConfig { asset_decimals: 6, base_imf: 100 }]
}

fn round_trip_positions() -> Vec<Position> {
    vec![flat_position(10_000_000, -1_000_000_000)]
}

fn round_trip_check(fraction_type: FractionType, col: i64) -> Result<bool, ErrorCode> {
    check_fraction_requirement(
        fraction_type,
        col,
        1,
        0,
        &round_trip_positions(),
        &round_trip_markets(),
        &vec![],
        &vec![],
        &round_trip_cache(),
    )
}

#[test]
fn weighted_sum_is_a_dot_product() {
    assert_eq!(calc_weighted_sum(&vec![2, 3], &vec![10, 20, 999]), Ok(80));
}

#[test]
fn weighted_sum_overflow_is_an_error() {
    assert_eq!(
        calc_weighted_sum(&vec![i64::MAX], &vec![2]),
        Err(ErrorCode::Overflow)
    );
}

#[test]
fn unrealized_pnl_rounds_down_notional_rounds_up() {
    // Three smallest units at a price of one half: the position's unrealized
    // value floors to 1 while its notional exposure ceils to 2.
    assert_eq!(calc_acc_val(0, UNIT / 2, 3, 0, 0, 0, 0, 0), Ok(1));
    assert_eq!(position_notional(3, UNIT / 2), Ok(2));
}

#[test]
fn funding_settlement_rebases_the_position() {
    // Long 1000 smallest units with three asset decimals; the market funding
    // index fell by 3 since the position last settled, paying the long
    // floor(1000 * 3 / 1000) = 3.
    assert_eq!(calc_acc_val(0, 0, 1000, 0, 0, 5, 2, 3), Ok(3));
}

#[test]
fn short_position_loses_when_price_rises() {
    // Short 10 units sold for 1000: flat at mark 100, down 100 at mark 110.
    assert_eq!(
        calc_acc_val(0, 100 * UNIT, -10_000_000, 1_000_000_000, 0, 0, 0, 6),
        Ok(0)
    );
    assert_eq!(
        calc_acc_val(0, 110 * UNIT, -10_000_000, 1_000_000_000, 0, 0, 0, 6),
        Ok(-100_000_000)
    );
}

#[test]
fn maintenance_factor_is_half_cancel_is_five_eighths() {
    let p = get_perp_acc_params(
        0,
        MfReturnOption::Both,
        1,
        &round_trip_positions(),
        &round_trip_cache().marks,
        &round_trip_markets(),
        &round_trip_cache().funding_cache,
    )
    .unwrap();
    assert_eq!(p.pimf_vec, vec![100]);
    assert_eq!(p.pmmf_vec, vec![50]);
    let c = get_perp_acc_params(
        0,
        MfReturnOption::Cancel,
        1,
        &round_trip_positions(),
        &round_trip_cache().marks,
        &round_trip_markets(),
        &round_trip_cache().funding_cache,
    )
    .unwrap();
    assert_eq!(c.pcmf_vec, vec![62]);
}

#[test]
fn round_trip_account_value_and_notional() {
    let p = get_perp_acc_params(
        1_000_000,
        MfReturnOption::Imf,
        1,
        &round_trip_positions(),
        &round_trip_cache().marks,
        &round_trip_markets(),
        &round_trip_cache().funding_cache,
    )
    .unwrap();
    // Bought for exactly its current value: the account value stays at the
    // incoming collateral, and the notional is ceil(10 * 100) in micro-units.
    assert_eq!(p.total_acc_value, 1_000_000);
    assert_eq!(p.pos_notional_vec, vec![1_000_000_000]);
    assert_eq!(p.pos_open_notional_vec, vec![1_000_000_000]);
    assert!(p.has_open_pos_notional);
    assert_eq!(p.total_realized_pnl, 0);
}

#[test]
fn initial_check_passes_just_above_the_requirement() {
    // Requirement: collateral * 1000 must strictly exceed notional * imf,
    // that is collateral > 1_000_000_000 * 100 / 1000.
    assert_eq!(round_trip_check(FractionType::Initial, 100_000_001), Ok(true));
    assert_eq!(round_trip_check(FractionType::Initial, 99_999_999), Ok(false));
}

#[test]
fn margin_fraction_equality_fails() {
    // budget == weighted sum exactly: the account is under-margined.
    assert_eq!(round_trip_check(FractionType::Initial, 100_000_000), Ok(false));
}

#[test]
fn maintenance_uses_half_factor_and_raw_notional() {
    assert_eq!(round_trip_check(FractionType::Maintenance, 50_000_001), Ok(true));
    assert_eq!(round_trip_check(FractionType::Maintenance, 50_000_000), Ok(false));
}

#[test]
fn cancel_uses_five_eighths_factor() {
    assert_eq!(round_trip_check(FractionType::Cancel, 62_000_001), Ok(true));
    assert_eq!(round_trip_check(FractionType::Cancel, 62_000_000), Ok(false));
}

#[test]
fn no_open_exposure_passes_trivially() {
    // A live but empty position (zero size, no resting orders) and a deposit
    // only: nothing to margin, the check passes whatever the collateral.
    let positions = vec![flat_position(0, 0)];
    let markets = round_trip_markets();
    let infos = vec![CollateralConfig { oracle_symbol: 7, weight: 500, liq_fee: 0 }];
    let cache = Cache {
        marks: vec![100 * UNIT],
        funding_cache: vec![0],
        borrow_cache: vec![BorrowAccrual {
            supply_multiplier: UNIT as u64,
            borrow_multiplier: UNIT as u64,
        }],
        oracles: vec![OracleEntry { symbol: 7, price: UNIT }],
    };
    for ft in [FractionType::Initial, FractionType::Maintenance, FractionType::Cancel] {
        assert_eq!(
            check_fraction_requirement(ft, -5_000_000, 1, 1, &positions, &markets, &infos,
                &vec![1_000], &cache),
            Ok(true)
        );
    }
}

#[test]
fn empty_position_slots_are_skipped() {
    let positions = vec![
        Position {
            key: AccountId::empty(),
            pos_size: i64::MAX,
            native_pc_total: i64::MIN,
            realized_pnl: i64::MAX,
            coin_on_bids: u64::MAX,
            coin_on_asks: u64::MAX,
            funding_index: i128::MIN,
        },
        flat_position(10_000_000, -1_000_000_000),
    ];
    let markets = vec![
        PerpMarketConfig { asset_decimals: 6, base_imf: 250 },
        PerpMarketConfig { asset_decimals: 6, base_imf: 100 },
    ];
    let cache = Cache {
        marks: vec![100 * UNIT, 100 * UNIT],
        funding_cache: vec![0, 0],
        borrow_cache: vec![],
        oracles: vec![],
    };
    let p = get_perp_acc_params(
        7,
        MfReturnOption::Imf,
        2,
        &positions,
        &cache.marks,
        &markets,
        &cache.funding_cache,
    )
    .unwrap();
    // Only the live slot contributes: one factor, one notional, no error.
    assert_eq!(p.pimf_vec, vec![100]);
    assert_eq!(p.pos_notional_vec, vec![1_000_000_000]);
    assert_eq!(p.total_acc_value, 7);
}

#[test]
fn perp_and_spot_exposures_combine() {
    // The round-trip position plus a borrow of 1000 at price 2.0 and weight
    // 500: initial exposure sum 100 * 10^9 + 1200 * 2000.
    let infos = vec![CollateralConfig { oracle_symbol: 7, weight: 500, liq_fee: 0 }];
    let cache = Cache {
        marks: vec![100 * UNIT],
        funding_cache: vec![0],
        borrow_cache: vec![BorrowAccrual {
            supply_multiplier: UNIT as u64,
            borrow_multiplier: UNIT as u64,
        }],
        oracles: vec![OracleEntry { symbol: 7, price: 2 * UNIT }],
    };
    let check = |ft: FractionType, col: i64| {
        check_fraction_requirement(
            ft,
            col,
            1,
            1,
            &round_trip_positions(),
            &round_trip_markets(),
            &infos,
            &vec![-1000],
            &cache,
        )
    };
    assert_eq!(check(FractionType::Initial, 100_002_401), Ok(true));
    assert_eq!(check(FractionType::Initial, 100_002_400), Ok(false));
    // Maintenance: half perp factor, spot factor ceil(1_030_000/500) - 1000.
    assert_eq!(check(FractionType::Maintenance, 50_002_121), Ok(true));
    assert_eq!(check(FractionType::Maintenance, 50_002_120), Ok(false));
    // Cancel: five-eighths perp factor, spot reuses the initial ratio.
    assert_eq!(check(FractionType::Cancel, 62_002_401), Ok(true));
    assert_eq!(check(FractionType::Cancel, 62_002_400), Ok(false));
}

#[test]
fn spot_factor_values() {
    // ceil(1_100_000 / 500) - 1000 and ceil(1_030_000 / 1000) - 1000.
    assert_eq!(spot_factor(1_100_000, 500), Ok(1200));
    assert_eq!(spot_factor(1_030_000, 1000), Ok(30));
    assert_eq!(spot_factor(1_100_000, 0), Err(ErrorCode::DivisionByZero));
}

#[test]
fn spot_borrows_collect_negative_balances_only() {
    let infos = vec![
        CollateralConfig { oracle_symbol: 7, weight: 500, liq_fee: 0 },
        CollateralConfig { oracle_symbol: 9, weight: 1000, liq_fee: 0 },
    ];
    let accrual = BorrowAccrual { supply_multiplier: UNIT as u64, borrow_multiplier: UNIT as u64 };
    let cache = Cache {
        marks: vec![],
        funding_cache: vec![],
        borrow_cache: vec![accrual, accrual],
        oracles: vec![
            OracleEntry { symbol: 7, price: 2 * UNIT },
            OracleEntry { symbol: 9, price: UNIT },
        ],
    };
    // Slot 0 is a deposit (skipped); slot 1 a borrow of 1000 at price 1.0.
    let s = get_spot_borrows(MfReturnOption::Imf, 2, &vec![500, -1000], &infos, &cache, 0)
        .unwrap();
    assert!(s.has_open_pos_notional);
    assert_eq!(s.imf_vec, vec![100]);
    assert_eq!(s.mmf_vec, Vec::<i64>::new());
    assert_eq!(s.pos_notional_vec, vec![1000]);
}

#[test]
fn realized_pnl_settles_into_the_base_asset() {
    let infos = vec![CollateralConfig { oracle_symbol: 7, weight: 1000, liq_fee: 0 }];
    let accrual = BorrowAccrual { supply_multiplier: UNIT as u64, borrow_multiplier: UNIT as u64 };
    let cache = Cache {
        marks: vec![],
        funding_cache: vec![],
        borrow_cache: vec![accrual],
        oracles: vec![OracleEntry { symbol: 7, price: UNIT }],
    };
    // A borrow of 1000 in the base asset, with 400 of realized gains to
    // settle: only 600 of debt remains to be priced.
    let s = get_spot_borrows(MfReturnOption::Imf, 1, &vec![-1000], &infos, &cache, 400).unwrap();
    assert_eq!(s.pos_notional_vec, vec![600]);
}

#[test]
fn zero_weight_borrow_is_a_configuration_error() {
    let infos = vec![CollateralConfig { oracle_symbol: 7, weight: 0, liq_fee: 0 }];
    let accrual = BorrowAccrual { supply_multiplier: UNIT as u64, borrow_multiplier: UNIT as u64 };
    let cache = Cache {
        marks: vec![],
        funding_cache: vec![],
        borrow_cache: vec![accrual],
        oracles: vec![OracleEntry { symbol: 7, price: UNIT }],
    };
    assert_eq!(
        get_spot_borrows(MfReturnOption::Imf, 1, &vec![-1000], &infos, &cache, 0).err(),
        Some(ErrorCode::DivisionByZero)
    );
}
