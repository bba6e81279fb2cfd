use vstd::prelude::*;

verus! {

use crate::data::{BorrowAccrual, Cache, CollateralConfig, FractionType, MfReturnOption,
    OracleEntry, PerpMarketConfig, Position};
use crate::error::ErrorCode;
use crate::math::{append_copy, guard_i64, lemma_seq_i64_to_int_concat, res_matches, safe_add_i64,
    safe_mul_i64, seq_i64_to_int};
use crate::perp::{PerpAccParams, get_perp_acc_params, lemma_perp_fold_has_open,
    lemma_perp_fold_lens, spec_perp_fold};
use crate::spot::{get_spot_borrows, lemma_spot_fold_has_open, lemma_spot_fold_lens,
    spec_spot_fold};

/// Which factor vectors a margin check of the given fraction type needs.
pub open spec fn spec_return_option(fraction_type: FractionType) -> MfReturnOption {
    match fraction_type {
        FractionType::Initial => MfReturnOption::Imf,
        FractionType::Maintenance => MfReturnOption::Mmf,
        FractionType::Cancel => MfReturnOption::Cancel,
    }
}

/// Dot product of a factor vector with a notional vector, every
/// multiplication and addition checked against the 64-bit range.
pub open spec fn spec_weighted_sum(factors: Seq<int>, weights: Seq<int>) -> Result<int, ErrorCode>
    decreases factors.len(),
{
    if factors.len() == 0 {
        Ok(0)
    } else {
        match spec_weighted_sum(factors.drop_last(), weights) {
            Err(e) => Err(e),
            Ok(acc) => {
                let i = factors.len() - 1;
                match guard_i64(factors[i] * weights[i]) {
                    Err(e) => Err(e),
                    Ok(term) => guard_i64(acc + term),
                }
            },
        }
    }
}

proof fn lemma_weighted_sum_err(fs: Seq<int>, ws: Seq<int>, k: int)
    requires
        0 <= k <= fs.len(),
        spec_weighted_sum(fs.take(k), ws) is Err,
    ensures
        spec_weighted_sum(fs, ws) == spec_weighted_sum(fs.take(k), ws),
    decreases fs.len(),
{
    if k == fs.len() {
        assert(fs.take(k) =~= fs);
    } else {
        assert(fs.drop_last().take(k) =~= fs.take(k));
        lemma_weighted_sum_err(fs.drop_last(), ws, k);
    }
}

/// Dot product of a factor vector with a notional vector; see
/// `spec_weighted_sum`.
pub fn calc_weighted_sum(factor: &Vec<i64>, weights: &Vec<i64>) -> (r: Result<i64, ErrorCode>)
    requires
        factor@.len() <= weights@.len(),
    ensures
        res_matches(r, spec_weighted_sum(seq_i64_to_int(factor@), seq_i64_to_int(weights@))),
{
    let ghost fs = seq_i64_to_int(factor@);
    let ghost ws = seq_i64_to_int(weights@);
    let mut numerator: i64 = 0;
    let mut i: usize = 0;
    proof {
        assert(fs.take(0) =~= Seq::<int>::empty());
    }
    while i < factor.len()
        invariant
            i <= factor@.len(),
            factor@.len() <= weights@.len(),
            fs == seq_i64_to_int(factor@),
            ws == seq_i64_to_int(weights@),
            spec_weighted_sum(fs.take(i as int), ws) == Ok::<int, ErrorCode>(numerator as int),
        decreases factor@.len() - i,
    {
        proof {
            assert(fs.take(i + 1).drop_last() =~= fs.take(i as int));
            assert(fs.take(i + 1).last() == fs[i as int]);
        }
        let term = match safe_mul_i64(factor[i], weights[i]) {
            Ok(v) => v,
            Err(e) => {
                proof {
                    lemma_weighted_sum_err(fs, ws, i + 1);
                }
                return Err(e);
            },
        };
        let next = match safe_add_i64(numerator, term) {
            Ok(v) => v,
            Err(e) => {
                proof {
                    lemma_weighted_sum_err(fs, ws, i + 1);
                }
                return Err(e);
            },
        };
        numerator = next;
        i = i + 1;
    }
    proof {
        assert(fs.take(factor@.len() as int) =~= fs);
    }
    Ok(numerator)
}

/// The margin budget of an account — the smaller of its running value and
/// its adjusted collateral, in permille — compared strictly against a
/// weighted exposure sum. Equality fails the check.
pub open spec fn spec_budget_vs_sum(
    acc: int,
    col: int,
    trp: int,
    factors: Seq<int>,
    weights: Seq<int>,
) -> Result<bool, ErrorCode> {
    match guard_i64(col + trp) {
        Err(e) => Err(e),
        Ok(ct) => {
            let m = if acc < ct {
                acc
            } else {
                ct
            };
            match guard_i64(m * 1000) {
                Err(e) => Err(e),
                Ok(budget) => match spec_weighted_sum(factors, weights) {
                    Err(e) => Err(e),
                    Ok(ws) => Ok(budget > ws),
                },
            }
        },
    }
}

/// Law: margin-fraction equality is a failure. Whenever the budget equals
/// the weighted exposure sum exactly, the strict comparison yields `false`:
/// the account is considered under-margined at the boundary.
pub proof fn lemma_budget_equality_fails(
    acc: int,
    col: int,
    trp: int,
    factors: Seq<int>,
    weights: Seq<int>,
)
    requires
        spec_budget_vs_sum(acc, col, trp, factors, weights) is Ok,
        spec_weighted_sum(factors, weights) == Ok::<int, ErrorCode>(
            (if acc < col + trp {
                acc
            } else {
                col + trp
            }) * 1000,
        ),
    ensures
        spec_budget_vs_sum(acc, col, trp, factors, weights) == Ok::<bool, ErrorCode>(false),
{
}

/// Whether an account satisfies the margin requirement of `fraction_type`:
/// the perpetual and spot aggregations are run and their vectors
/// concatenated (perpetual entries first); with no open exposure the check
/// trivially passes; otherwise the budget must strictly exceed the weighted
/// exposure sum. Initial and Cancel use the worst-case open notionals
/// against the collateral-capped budget; Maintenance uses the raw notionals
/// against the full account value.
pub open spec fn spec_check_fraction(
    fraction_type: FractionType,
    col: int,
    max_markets: nat,
    max_cols: nat,
    oo: Seq<Position>,
    marks: Seq<i64>,
    pm: Seq<PerpMarketConfig>,
    funding: Seq<i128>,
    col_arr: Seq<i64>,
    col_infos: Seq<CollateralConfig>,
    accrs: Seq<BorrowAccrual>,
    oracles: Seq<OracleEntry>,
) -> Result<bool, ErrorCode> {
    let opt = spec_return_option(fraction_type);
    match spec_perp_fold(col, opt, max_markets, oo, marks, pm, funding) {
        Err(e) => Err(e),
        Ok(p) => match spec_spot_fold(
            max_cols,
            col_arr,
            col_infos,
            accrs,
            oracles,
            p.total_realized_pnl,
            opt,
        ) {
            Err(e) => Err(e),
            Ok(s) => {
                if !(p.has_open_pos_notional || s.has_open_pos_notional) {
                    Ok(true)
                } else {
                    match fraction_type {
                        FractionType::Initial => spec_budget_vs_sum(
                            p.total_acc_value,
                            col,
                            p.total_realized_pnl,
                            p.pimf_vec + s.imf_vec,
                            p.pos_open_notional_vec + s.notional_vec,
                        ),
                        FractionType::Maintenance => match guard_i64(p.total_acc_value * 1000) {
                            Err(e) => Err(e),
                            Ok(budget) => match spec_weighted_sum(
                                p.pmmf_vec + s.mmf_vec,
                                p.pos_notional_vec + s.notional_vec,
                            ) {
                                Err(e) => Err(e),
                                Ok(ws) => Ok(budget > ws),
                            },
                        },
                        FractionType::Cancel => spec_budget_vs_sum(
                            p.total_acc_value,
                            col,
                            p.total_realized_pnl,
                            p.pcmf_vec + s.imf_vec,
                            p.pos_open_notional_vec + s.notional_vec,
                        ),
                    }
                }
            },
        },
    }
}

/// Law: an account in which no active position and no borrow has a positive
/// (worst-case) notional satisfies every margin-fraction requirement,
/// whatever its collateral and account value.
pub proof fn lemma_no_exposure_passes(
    fraction_type: FractionType,
    col: int,
    max_markets: nat,
    max_cols: nat,
    oo: Seq<Position>,
    marks: Seq<i64>,
    pm: Seq<PerpMarketConfig>,
    funding: Seq<i128>,
    col_arr: Seq<i64>,
    col_infos: Seq<CollateralConfig>,
    accrs: Seq<BorrowAccrual>,
    oracles: Seq<OracleEntry>,
    p: crate::perp::PerpAccState,
    s: crate::spot::SpotState,
)
    requires
        spec_perp_fold(col, spec_return_option(fraction_type), max_markets, oo, marks, pm, funding)
            == Ok::<crate::perp::PerpAccState, ErrorCode>(p),
        spec_spot_fold(
            max_cols,
            col_arr,
            col_infos,
            accrs,
            oracles,
            p.total_realized_pnl,
            spec_return_option(fraction_type),
        ) == Ok::<crate::spot::SpotState, ErrorCode>(s),
        forall|i: int|
            0 <= i < p.pos_open_notional_vec.len() ==> #[trigger] p.pos_open_notional_vec[i] <= 0,
        forall|i: int| 0 <= i < s.notional_vec.len() ==> #[trigger] s.notional_vec[i] <= 0,
    ensures
        spec_check_fraction(
            fraction_type,
            col,
            max_markets,
            max_cols,
            oo,
            marks,
            pm,
            funding,
            col_arr,
            col_infos,
            accrs,
            oracles,
        ) == Ok::<bool, ErrorCode>(true),
{
    let opt = spec_return_option(fraction_type);
    lemma_perp_fold_has_open(col, opt, max_markets, oo, marks, pm, funding);
    lemma_spot_fold_has_open(
        max_cols,
        col_arr,
        col_infos,
        accrs,
        oracles,
        p.total_realized_pnl,
        opt,
    );
    assert(!p.has_open_pos_notional);
    assert(!s.has_open_pos_notional);
}

/// Decides whether an account satisfies the Initial, Maintenance or Cancel
/// margin requirement; see `spec_check_fraction`. `col` is the account's
/// weighted collateral value.
pub fn check_fraction_requirement(
    fraction_type: FractionType,
    col: i64,
    max_markets: usize,
    max_cols: usize,
    oo_agg: &Vec<Position>,
    pm: &Vec<PerpMarketConfig>,
    col_info_arr: &Vec<CollateralConfig>,
    margin_col: &Vec<i64>,
    cache: &Cache,
) -> (r: Result<bool, ErrorCode>)
    requires
        max_markets <= oo_agg@.len(),
        max_markets <= cache.marks@.len(),
        max_markets <= pm@.len(),
        max_markets <= cache.funding_cache@.len(),
        forall|i: int| 0 <= i < max_markets ==> (#[trigger] pm@[i]).asset_decimals <= 18,
        max_cols <= margin_col@.len(),
        max_cols <= col_info_arr@.len(),
        max_cols <= cache.borrow_cache@.len(),
    ensures
        r == spec_check_fraction(
            fraction_type,
            col as int,
            max_markets as nat,
            max_cols as nat,
            oo_agg@,
            cache.marks@,
            pm@,
            cache.funding_cache@,
            margin_col@,
            col_info_arr@,
            cache.borrow_cache@,
            cache.oracles@,
        ),
{
    let return_option = match fraction_type {
        FractionType::Initial => MfReturnOption::Imf,
        FractionType::Maintenance => MfReturnOption::Mmf,
        FractionType::Cancel => MfReturnOption::Cancel,
    };
    let p = match get_perp_acc_params(
        col,
        return_option,
        max_markets,
        oo_agg,
        &cache.marks,
        pm,
        &cache.funding_cache,
    ) {
        Ok(p) => p,
        Err(e) => {
            return Err(e);
        },
    };
    let ghost gp = p@;
    let s = match get_spot_borrows(
        return_option,
        max_cols,
        margin_col,
        col_info_arr,
        cache,
        p.total_realized_pnl,
    ) {
        Ok(s) => s,
        Err(e) => {
            return Err(e);
        },
    };
    let ghost gs = s@;
    proof {
        lemma_perp_fold_lens(
            col as int,
            return_option,
            max_markets as nat,
            oo_agg@,
            cache.marks@,
            pm@,
            cache.funding_cache@,
        );
        lemma_spot_fold_lens(
            max_cols as nat,
            margin_col@,
            col_info_arr@,
            cache.borrow_cache@,
            cache.oracles@,
            gp.total_realized_pnl,
            return_option,
        );
    }
    if !(p.has_open_pos_notional || s.has_open_pos_notional) {
        return Ok(true);
    }
    let PerpAccParams {
        total_acc_value,
        has_open_pos_notional: _,
        total_realized_pnl,
        mut pimf_vec,
        mut pmmf_vec,
        mut pcmf_vec,
        mut pos_open_notional_vec,
        mut pos_notional_vec,
    } = p;
    match fraction_type {
        FractionType::Initial => {
            let ghost f0 = pimf_vec@;
            let ghost w0 = pos_open_notional_vec@;
            append_copy(&mut pimf_vec, &s.imf_vec);
            append_copy(&mut pos_open_notional_vec, &s.pos_notional_vec);
            proof {
                lemma_seq_i64_to_int_concat(f0, s.imf_vec@);
                lemma_seq_i64_to_int_concat(w0, s.pos_notional_vec@);
            }
            let ct = match safe_add_i64(col, total_realized_pnl) {
                Ok(v) => v,
                Err(e) => {
                    return Err(e);
                },
            };
            let m = if total_acc_value < ct {
                total_acc_value
            } else {
                ct
            };
            let budget = match safe_mul_i64(m, 1000) {
                Ok(v) => v,
                Err(e) => {
                    return Err(e);
                },
            };
            let ws = match calc_weighted_sum(&pimf_vec, &pos_open_notional_vec) {
                Ok(v) => v,
                Err(e) => {
                    return Err(e);
                },
            };
            Ok(budget > ws)
        },
        FractionType::Maintenance => {
            let ghost f0 = pmmf_vec@;
            let ghost w0 = pos_notional_vec@;
            append_copy(&mut pmmf_vec, &s.mmf_vec);
            append_copy(&mut pos_notional_vec, &s.pos_notional_vec);
            proof {
                lemma_seq_i64_to_int_concat(f0, s.mmf_vec@);
                lemma_seq_i64_to_int_concat(w0, s.pos_notional_vec@);
            }
            let budget = match safe_mul_i64(total_acc_value, 1000) {
                Ok(v) => v,
                Err(e) => {
                    return Err(e);
                },
            };
            let ws = match calc_weighted_sum(&pmmf_vec, &pos_notional_vec) {
                Ok(v) => v,
                Err(e) => {
                    return Err(e);
                },
            };
            Ok(budget > ws)
        },
        FractionType::Cancel => {
            let ghost f0 = pcmf_vec@;
            let ghost w0 = pos_open_notional_vec@;
            append_copy(&mut pcmf_vec, &s.imf_vec);
            append_copy(&mut pos_open_notional_vec, &s.pos_notional_vec);
            proof {
                lemma_seq_i64_to_int_concat(f0, s.imf_vec@);
                lemma_seq_i64_to_int_concat(w0, s.pos_notional_vec@);
            }
            let ct = match safe_add_i64(col, total_realized_pnl) {
                Ok(v) => v,
                Err(e) => {
                    return Err(e);
                },
            };
            let m = if total_acc_value < ct {
                total_acc_value
            } else {
                ct
            };
            let budget = match safe_mul_i64(m, 1000) {
                Ok(v) => v,
                Err(e) => {
                    return Err(e);
                },
            };
            let ws = match calc_weighted_sum(&pcmf_vec, &pos_open_notional_vec) {
                Ok(v) => v,
                Err(e) => {
                    return Err(e);
                },
            };
            Ok(budget > ws)
        },
    }
}

} // verus!
