use vstd::prelude::*;

verus! {

use crate::data::{BorrowAccrual, Cache, CollateralConfig, Control, Margin, MfReturnOption,
    OracleEntry, PerpMarketConfig, Position, SPOT_INITIAL_MARGIN_REQ, State, get_oracle,
    spec_lookup_oracle};
use crate::error::ErrorCode;
use crate::fraction::{calc_weighted_sum, spec_weighted_sum};
use crate::math::{UNIT, ceil_div, ceil_div_i128, floor_div, floor_div_i128, guard_i64,
    lemma_ceil_div_bounds, lemma_div_stays_in_range, lemma_i64_u64_mul_fits_i128,
    lemma_mul_fits_i128, lemma_seq_i64_to_int_concat, mul_unit_floor, res_matches, safe_mul_i64,
    safe_sub_i64, to_i64};
use crate::math::append_copy;
use crate::perp::{PerpAccParams, get_perp_acc_params, lemma_perp_fold_lens, spec_perp_fold};
use crate::spot::{get_spot_borrows, lemma_spot_fold_lens, spec_spot_fold, spot_factor,
    spec_spot_factor};
use crate::valuation::{get_total_collateral, spec_collateral_value};

/// Minimum quantity of a target asset whose removal restores the account
/// above its initial-margin requirement: the margin deficit — the weighted
/// exposure sum less the permille-scaled budget — divided by the asset's
/// price times its net factor advantage, rounded up. A non-positive
/// denominator is a configuration or state error, never silently clamped.
pub open spec fn spec_max_reducible(
    weighted_sum_pimfs: int,
    weighted_col: int,
    total_acc_value: int,
    base_imf: int,
    price: int,
    num_lf: int,
) -> Result<int, ErrorCode> {
    let wc = if weighted_col > 0 {
        weighted_col
    } else {
        0
    };
    let m = if wc < total_acc_value {
        wc
    } else {
        total_acc_value
    };
    match guard_i64(m * 1000) {
        Err(e) => Err(e),
        Ok(m1000) => match guard_i64(weighted_sum_pimfs - m1000) {
            Err(e) => Err(e),
            Ok(numer) => {
                let denom = price * (base_imf - num_lf);
                if denom <= 0 {
                    Err(ErrorCode::DivisionByZero)
                } else {
                    guard_i64(ceil_div(numer * (UNIT as int), denom))
                }
            },
        },
    }
}

/// Law: for an account at or below the initial-margin boundary (the weighted
/// exposure sum is at least the budget), the liquidation size is never
/// negative.
pub proof fn lemma_reducible_nonneg(
    weighted_sum_pimfs: int,
    weighted_col: int,
    total_acc_value: int,
    base_imf: int,
    price: int,
    num_lf: int,
)
    requires
        spec_max_reducible(
            weighted_sum_pimfs,
            weighted_col,
            total_acc_value,
            base_imf,
            price,
            num_lf,
        ) is Ok,
        weighted_sum_pimfs >= (if (if weighted_col > 0 {
            weighted_col
        } else {
            0
        }) < total_acc_value {
            if weighted_col > 0 {
                weighted_col
            } else {
                0
            }
        } else {
            total_acc_value
        }) * 1000,
    ensures
        spec_max_reducible(
            weighted_sum_pimfs,
            weighted_col,
            total_acc_value,
            base_imf,
            price,
            num_lf,
        )->Ok_0 >= 0,
{
    let wc = if weighted_col > 0 {
        weighted_col
    } else {
        0
    };
    let m = if wc < total_acc_value {
        wc
    } else {
        total_acc_value
    };
    let numer = weighted_sum_pimfs - m * 1000;
    let denom = price * (base_imf - num_lf);
    lemma_div_stays_in_range(numer * (UNIT as int), denom);
    assert(numer * (UNIT as int) >= 0) by (nonlinear_arith)
        requires
            numer >= 0,
    ;
}

/// Law: for an account exactly at the initial-margin boundary the
/// liquidation size is exactly zero.
pub proof fn lemma_reducible_zero_at_boundary(
    weighted_sum_pimfs: int,
    weighted_col: int,
    total_acc_value: int,
    base_imf: int,
    price: int,
    num_lf: int,
)
    requires
        spec_max_reducible(
            weighted_sum_pimfs,
            weighted_col,
            total_acc_value,
            base_imf,
            price,
            num_lf,
        ) is Ok,
        weighted_sum_pimfs == (if (if weighted_col > 0 {
            weighted_col
        } else {
            0
        }) < total_acc_value {
            if weighted_col > 0 {
                weighted_col
            } else {
                0
            }
        } else {
            total_acc_value
        }) * 1000,
    ensures
        spec_max_reducible(
            weighted_sum_pimfs,
            weighted_col,
            total_acc_value,
            base_imf,
            price,
            num_lf,
        )->Ok_0 == 0,
{
    let wc = if weighted_col > 0 {
        weighted_col
    } else {
        0
    };
    let m = if wc < total_acc_value {
        wc
    } else {
        total_acc_value
    };
    let denom = price * (base_imf - num_lf);
    assert(ceil_div(0, denom) == 0) by {
        vstd::arithmetic::div_mod::lemma_div_of0(denom);
    }
}

/// Law: the returned quantity scaled by the denominator covers the margin
/// deficit, and one unit less does not — the size is minimal.
pub proof fn lemma_reducible_minimal(
    weighted_sum_pimfs: int,
    weighted_col: int,
    total_acc_value: int,
    base_imf: int,
    price: int,
    num_lf: int,
)
    requires
        spec_max_reducible(
            weighted_sum_pimfs,
            weighted_col,
            total_acc_value,
            base_imf,
            price,
            num_lf,
        ) is Ok,
    ensures
        ({
            let wc = if weighted_col > 0 {
                weighted_col
            } else {
                0
            };
            let m = if wc < total_acc_value {
                wc
            } else {
                total_acc_value
            };
            let numer = weighted_sum_pimfs - m * 1000;
            let denom = price * (base_imf - num_lf);
            let q = spec_max_reducible(
                weighted_sum_pimfs,
                weighted_col,
                total_acc_value,
                base_imf,
                price,
                num_lf,
            )->Ok_0;
            &&& q * denom >= numer * (UNIT as int)
            &&& (q - 1) * denom < numer * (UNIT as int)
        }),
{
    let wc = if weighted_col > 0 {
        weighted_col
    } else {
        0
    };
    let m = if wc < total_acc_value {
        wc
    } else {
        total_acc_value
    };
    let numer = weighted_sum_pimfs - m * 1000;
    let denom = price * (base_imf - num_lf);
    let a = numer * (UNIT as int);
    let q = ceil_div(a, denom);
    lemma_ceil_div_bounds(a, denom);
    assert(q * denom == denom * q) by (nonlinear_arith);
    assert((q - 1) * denom == denom * (q - 1)) by (nonlinear_arith);
}

/// Minimum reducible quantity from precomputed aggregates; see
/// `spec_max_reducible`.
pub fn calc_max_reducible(
    weighted_sum_pimfs: i64,
    weighted_col: i64,
    total_acc_value: i64,
    base_imf: i64,
    price: i64,
    num_lf: i64,
) -> (r: Result<i64, ErrorCode>)
    ensures
        res_matches(
            r,
            spec_max_reducible(
                weighted_sum_pimfs as int,
                weighted_col as int,
                total_acc_value as int,
                base_imf as int,
                price as int,
                num_lf as int,
            ),
        ),
{
    let wc = if weighted_col > 0 {
        weighted_col
    } else {
        0
    };
    let m = if wc < total_acc_value {
        wc
    } else {
        total_acc_value
    };
    let m1000 = match safe_mul_i64(m, 1000) {
        Ok(v) => v,
        Err(e) => {
            return Err(e);
        },
    };
    let numer = match safe_sub_i64(weighted_sum_pimfs, m1000) {
        Ok(v) => v,
        Err(e) => {
            return Err(e);
        },
    };
    proof {
        lemma_mul_fits_i128(
            price as int,
            base_imf - num_lf,
            0x8000_0000_0000_0000,
            0xffff_ffff_ffff_ffff,
        );
    }
    let diff: i128 = (base_imf as i128) - (num_lf as i128);
    let denom: i128 = (price as i128) * diff;
    if denom <= 0 {
        return Err(ErrorCode::DivisionByZero);
    }
    proof {
        lemma_mul_fits_i128(numer as int, UNIT as int, 0x8000_0000_0000_0000, 0x10_0000);
    }
    let scaled: i128 = (numer as i128) * (UNIT as i128);
    let q = ceil_div_i128(scaled, denom);
    to_i64(q)
}

/// Liquidation aggregates run in combined mode: both factor vectors, the
/// weighted initial-factor exposure sum over all active exposures
/// (perpetual entries first, spot appended), and the final sizing.
pub open spec fn spec_max_reducible_assets(
    base_imf: int,
    num_lf: int,
    price: int,
    weighted_col: int,
    max_markets: nat,
    max_cols: nat,
    oo: Seq<Position>,
    marks: Seq<i64>,
    pm: Seq<PerpMarketConfig>,
    funding: Seq<i128>,
    col_arr: Seq<i64>,
    col_infos: Seq<CollateralConfig>,
    accrs: Seq<BorrowAccrual>,
    oracles: Seq<OracleEntry>,
) -> Result<int, ErrorCode> {
    match spec_perp_fold(weighted_col, MfReturnOption::Both, max_markets, oo, marks, pm, funding) {
        Err(e) => Err(e),
        Ok(p) => match spec_spot_fold(
            max_cols,
            col_arr,
            col_infos,
            accrs,
            oracles,
            p.total_realized_pnl,
            MfReturnOption::Both,
        ) {
            Err(e) => Err(e),
            Ok(s) => match spec_weighted_sum(
                p.pimf_vec + s.imf_vec,
                p.pos_open_notional_vec + s.notional_vec,
            ) {
                Err(e) => Err(e),
                Ok(ws) => spec_max_reducible(
                    ws,
                    weighted_col,
                    p.total_acc_value,
                    base_imf,
                    price,
                    num_lf,
                ),
            },
        },
    }
}

/// Runs the perpetual and spot aggregations in combined mode and sizes the
/// reduction; see `spec_max_reducible_assets`.
pub fn get_max_reducible_assets(
    base_imf: i64,
    num_lf: i64,
    price: i64,
    weighted_col: i64,
    max_markets: usize,
    max_cols: usize,
    cache: &Cache,
    oo_agg: &Vec<Position>,
    pm: &Vec<PerpMarketConfig>,
    margin_col: &Vec<i64>,
    col_info_arr: &Vec<CollateralConfig>,
) -> (r: Result<i64, ErrorCode>)
    requires
        max_markets <= oo_agg@.len(),
        max_markets <= cache.marks@.len(),
        max_markets <= pm@.len(),
        max_markets <= cache.funding_cache@.len(),
        forall|i: int| 0 <= i < max_markets ==> (#[trigger] pm@[i]).asset_decimals <= 18,
        max_cols <= margin_col@.len(),
        max_cols <= col_info_arr@.len(),
        max_cols <= cache.borrow_cache@.len(),
    ensures
        res_matches(
            r,
            spec_max_reducible_assets(
                base_imf as int,
                num_lf as int,
                price as int,
                weighted_col as int,
                max_markets as nat,
                max_cols as nat,
                oo_agg@,
                cache.marks@,
                pm@,
                cache.funding_cache@,
                margin_col@,
                col_info_arr@,
                cache.borrow_cache@,
                cache.oracles@,
            ),
        ),
{
    let p = match get_perp_acc_params(
        weighted_col,
        MfReturnOption::Both,
        max_markets,
        oo_agg,
        &cache.marks,
        pm,
        &cache.funding_cache,
    ) {
        Ok(p) => p,
        Err(e) => {
            return Err(e);
        },
    };
    let ghost gp = p@;
    let s = match get_spot_borrows(
        MfReturnOption::Both,
        max_cols,
        margin_col,
        col_info_arr,
        cache,
        p.total_realized_pnl,
    ) {
        Ok(s) => s,
        Err(e) => {
            return Err(e);
        },
    };
    let ghost gs = s@;
    proof {
        lemma_perp_fold_lens(
            weighted_col as int,
            MfReturnOption::Both,
            max_markets as nat,
            oo_agg@,
            cache.marks@,
            pm@,
            cache.funding_cache@,
        );
        lemma_spot_fold_lens(
            max_cols as nat,
            margin_col@,
            col_info_arr@,
            cache.borrow_cache@,
            cache.oracles@,
            gp.total_realized_pnl,
            MfReturnOption::Both,
        );
    }
    let PerpAccParams {
        total_acc_value,
        has_open_pos_notional: _,
        total_realized_pnl: _,
        mut pimf_vec,
        pmmf_vec: _,
        pcmf_vec: _,
        mut pos_open_notional_vec,
        pos_notional_vec: _,
    } = p;
    let ghost f0 = pimf_vec@;
    let ghost w0 = pos_open_notional_vec@;
    append_copy(&mut pimf_vec, &s.imf_vec);
    append_copy(&mut pos_open_notional_vec, &s.pos_notional_vec);
    proof {
        lemma_seq_i64_to_int_concat(f0, s.imf_vec@);
        lemma_seq_i64_to_int_concat(w0, s.pos_notional_vec@);
    }
    let ws = match calc_weighted_sum(&pimf_vec, &pos_open_notional_vec) {
        Ok(v) => v,
        Err(e) => {
            return Err(e);
        },
    };
    calc_max_reducible(ws, weighted_col, total_acc_value, base_imf, price, num_lf)
}

/// Estimated liquidation size for seizing `asset_index` against
/// `quote_index`, converted to quote value at the asset's oracle price, with
/// an optional caller-supplied micro-scaled safety multiplier.
pub open spec fn spec_estimate_spot_liquidation(
    margin: Margin,
    control: Control,
    state: State,
    cache: Cache,
    asset_index: int,
    quote_index: int,
    fudge: Option<u64>,
) -> Result<int, ErrorCode> {
    match spec_spot_factor(
        SPOT_INITIAL_MARGIN_REQ as int,
        state.collaterals@[asset_index].weight as int,
    ) {
        Err(e) => Err(e),
        Ok(base_imf) => {
            let fee_a = state.collaterals@[asset_index].liq_fee as int;
            let fee_q = state.collaterals@[quote_index].liq_fee as int;
            let w_q = state.collaterals@[quote_index].weight as int;
            if 1000 - fee_q <= 0 {
                Err(ErrorCode::DivisionByZero)
            } else {
                let num_lf = floor_div(w_q * (1000 + fee_a), 1000 - fee_q) - 1000;
                match spec_lookup_oracle(
                    cache.oracles@,
                    state.collaterals@[asset_index].oracle_symbol,
                ) {
                    None => Err(ErrorCode::PriceUnavailable),
                    Some(price) => match spec_collateral_value(
                        margin.collateral@,
                        state.collaterals@,
                        cache.borrow_cache@,
                        cache.oracles@,
                        state.total_collaterals as nat,
                        true,
                    ) {
                        Err(e) => Err(e),
                        Ok(wcol) => match spec_max_reducible_assets(
                            base_imf,
                            num_lf,
                            price as int,
                            wcol,
                            state.total_markets as nat,
                            state.total_collaterals as nat,
                            control.open_orders_agg@,
                            cache.marks@,
                            state.perp_markets@,
                            cache.funding_cache@,
                            margin.collateral@,
                            state.collaterals@,
                            cache.borrow_cache@,
                            cache.oracles@,
                        ) {
                            Err(e) => Err(e),
                            Ok(amount) => match guard_i64(
                                floor_div(amount * price, UNIT as int),
                            ) {
                                Err(e) => Err(e),
                                Ok(usdc) => match fudge {
                                    None => Ok(usdc),
                                    Some(f) => guard_i64(
                                        floor_div(usdc * (f as int), UNIT as int),
                                    ),
                                },
                            },
                        },
                    },
                }
            }
        },
    }
}

/// Estimates, in quote value, the minimum seizure of `asset_index` (credited
/// into `quote_index`) that restores the account above its initial-margin
/// requirement; see `spec_estimate_spot_liquidation`.
pub fn estimate_spot_liquidation_size(
    margin: &Margin,
    control: &Control,
    state: &State,
    cache: &Cache,
    asset_index: usize,
    quote_index: usize,
    fudge: Option<u64>,
) -> (r: Result<i64, ErrorCode>)
    requires
        asset_index < state.collaterals@.len(),
        quote_index < state.collaterals@.len(),
        state.total_collaterals <= margin.collateral@.len(),
        state.total_collaterals <= state.collaterals@.len(),
        state.total_collaterals <= cache.borrow_cache@.len(),
        state.total_markets <= control.open_orders_agg@.len(),
        state.total_markets <= cache.marks@.len(),
        state.total_markets <= state.perp_markets@.len(),
        state.total_markets <= cache.funding_cache@.len(),
        forall|i: int|
            0 <= i < state.total_markets ==> (#[trigger] state.perp_markets@[i]).asset_decimals
                <= 18,
    ensures
        res_matches(
            r,
            spec_estimate_spot_liquidation(
                *margin,
                *control,
                *state,
                *cache,
                asset_index as int,
                quote_index as int,
                fudge,
            ),
        ),
{
    let base_imf = match spot_factor(SPOT_INITIAL_MARGIN_REQ, state.collaterals[asset_index].weight)
        {
        Ok(v) => v,
        Err(e) => {
            return Err(e);
        },
    };
    let fee_a = state.collaterals[asset_index].liq_fee;
    let fee_q = state.collaterals[quote_index].liq_fee;
    let w_q = state.collaterals[quote_index].weight;
    if fee_q >= 1000 {
        return Err(ErrorCode::DivisionByZero);
    }
    proof {
        assert((w_q as int) * (1000 + fee_a as int) <= 65535 * 66535) by (nonlinear_arith)
            requires
                w_q <= 65535 && fee_a <= 65535,
        ;
    }
    let lf_num: u64 = (w_q as u64) * (1000 + fee_a as u64);
    let lf_den: u64 = (1000 - fee_q) as u64;
    proof {
        lemma_div_stays_in_range(lf_num as int, lf_den as int);
    }
    let num_lf: i64 = (lf_num / lf_den) as i64 - 1000;
    let price = match get_oracle(cache, state.collaterals[asset_index].oracle_symbol) {
        Some(e) => e.price,
        None => {
            return Err(ErrorCode::PriceUnavailable);
        },
    };
    let wcol = match get_total_collateral(margin, cache, state) {
        Ok(v) => v,
        Err(e) => {
            return Err(e);
        },
    };
    let amount = match get_max_reducible_assets(
        base_imf,
        num_lf,
        price,
        wcol,
        state.total_markets,
        state.total_collaterals,
        cache,
        &control.open_orders_agg,
        &state.perp_markets,
        &margin.collateral,
        &state.collaterals,
    ) {
        Ok(v) => v,
        Err(e) => {
            return Err(e);
        },
    };
    let usdc = match mul_unit_floor(amount, price) {
        Ok(v) => v,
        Err(e) => {
            return Err(e);
        },
    };
    match fudge {
        None => Ok(usdc),
        Some(f) => {
            proof {
                lemma_i64_u64_mul_fits_i128(usdc as int, f as int);
            }
            let scaled: i128 = (usdc as i128) * (f as i128);
            to_i64(floor_div_i128(scaled, UNIT as i128))
        },
    }
}

} // verus!
