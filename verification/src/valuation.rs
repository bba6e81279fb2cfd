use vstd::prelude::*;

verus! {

use crate::data::{BorrowAccrual, Cache, CollateralConfig, Margin, OracleEntry, State,
    spec_lookup_oracle};
use crate::error::ErrorCode;
use crate::math::{PERMILLE, UNIT, floor_div, floor_div_i128, guard_i64,
    lemma_div_stays_in_range, lemma_floor_div_mono, lemma_i64_mul_fits_i128,
    lemma_i64_u64_mul_fits_i128, mul_unit_floor, res_matches, seq_i64_to_int, to_i64};
use crate::data::get_oracle;
use crate::math::safe_add_i64;

/// Interest-accrued value of a raw balance: positive balances scale by the
/// supply multiplier (the account lends), non-positive ones by the borrow
/// multiplier (the account borrows). Rounded toward negative infinity.
pub open spec fn spec_actual_collateral(raw: int, supply_mult: int, borrow_mult: int) -> Result<
    int,
    ErrorCode,
> {
    let m = if raw > 0 {
        supply_mult
    } else {
        borrow_mult
    };
    guard_i64(floor_div(raw * m, UNIT as int))
}

/// Law: for a positive raw balance the actual collateral grows with the
/// supply multiplier, and a smaller multiplier can never overflow where a
/// larger one did not.
pub proof fn lemma_actual_collateral_monotone_supply(raw: int, s1: int, s2: int, b: int)
    requires
        raw > 0,
        0 <= s1 <= s2,
        spec_actual_collateral(raw, s2, b) is Ok,
    ensures
        spec_actual_collateral(raw, s1, b) is Ok,
        spec_actual_collateral(raw, s1, b)->Ok_0 <= spec_actual_collateral(raw, s2, b)->Ok_0,
{
    assert(0 <= raw * s1 <= raw * s2) by (nonlinear_arith)
        requires
            raw > 0 && 0 <= s1 <= s2,
    ;
    lemma_floor_div_mono(raw * s1, raw * s2, UNIT as int);
    lemma_div_stays_in_range(raw * s1, UNIT as int);
}

/// Law: for a negative raw balance the actual collateral falls (its debt
/// magnitude grows) as the borrow multiplier grows, and a smaller multiplier
/// can never overflow where a larger one did not.
pub proof fn lemma_actual_collateral_monotone_borrow(raw: int, s: int, b1: int, b2: int)
    requires
        raw < 0,
        0 <= b1 <= b2,
        spec_actual_collateral(raw, s, b2) is Ok,
    ensures
        spec_actual_collateral(raw, s, b1) is Ok,
        spec_actual_collateral(raw, s, b1)->Ok_0 >= spec_actual_collateral(raw, s, b2)->Ok_0,
{
    assert(raw * b2 <= raw * b1 <= 0) by (nonlinear_arith)
        requires
            raw < 0 && 0 <= b1 <= b2,
    ;
    lemma_floor_div_mono(raw * b2, raw * b1, UNIT as int);
    lemma_div_stays_in_range(raw * b1, UNIT as int);
}

/// Interest-accrued value of a raw balance; fails with `Overflow` when the
/// scaled value leaves the 64-bit range.
pub fn calc_actual_collateral(initial_col: i64, supply_multiplier: u64, borrow_multiplier: u64) -> (
    r: Result<i64, ErrorCode>)
    ensures
        res_matches(
            r,
            spec_actual_collateral(
                initial_col as int,
                supply_multiplier as int,
                borrow_multiplier as int,
            ),
        ),
{
    let m = if initial_col > 0 {
        supply_multiplier
    } else {
        borrow_multiplier
    };
    proof {
        lemma_i64_u64_mul_fits_i128(initial_col as int, m as int);
    }
    let prod = (initial_col as i128) * (m as i128);
    let f = floor_div_i128(prod, UNIT as i128);
    to_i64(f)
}

/// Interest-accrued value of the balance at `index` of an account's
/// collateral vector.
pub fn get_actual_collateral(
    index: usize,
    margin: &Margin,
    supply_multiplier: u64,
    borrow_multiplier: u64,
) -> (r: Result<i64, ErrorCode>)
    requires
        index < margin.collateral@.len(),
    ensures
        res_matches(
            r,
            spec_actual_collateral(
                margin.collateral@[index as int] as int,
                supply_multiplier as int,
                borrow_multiplier as int,
            ),
        ),
{
    calc_actual_collateral(margin.collateral[index], supply_multiplier, borrow_multiplier)
}

/// Valuation of one collateral entry. A zero balance contributes zero and
/// never requires a price; otherwise the accrued balance is priced by oracle
/// lookup (absence is `PriceUnavailable`) and, when `weighted` is set and the
/// value is non-negative, discounted by the asset's permille weight. Negative
/// values are never weighted: full debt counts against the account.
pub open spec fn spec_entry_value(
    raw: int,
    info: CollateralConfig,
    accr: BorrowAccrual,
    oracles: Seq<OracleEntry>,
    weighted: bool,
) -> Result<int, ErrorCode> {
    if raw == 0 {
        Ok(0)
    } else {
        match spec_actual_collateral(
            raw,
            accr.supply_multiplier as int,
            accr.borrow_multiplier as int,
        ) {
            Err(e) => Err(e),
            Ok(v) => match spec_lookup_oracle(oracles, info.oracle_symbol) {
                None => Err(ErrorCode::PriceUnavailable),
                Some(price) => match guard_i64(floor_div(v * price, UNIT as int)) {
                    Err(e) => Err(e),
                    Ok(usd) => if weighted && usd >= 0 {
                        guard_i64(floor_div(usd * (info.weight as int), PERMILLE as int))
                    } else {
                        Ok(usd)
                    },
                },
            },
        }
    }
}

fn entry_value(
    raw: i64,
    info: &CollateralConfig,
    accr: &BorrowAccrual,
    cache: &Cache,
    weighted: bool,
) -> (r: Result<i64, ErrorCode>)
    ensures
        res_matches(r, spec_entry_value(raw as int, *info, *accr, cache.oracles@, weighted)),
{
    if raw == 0 {
        return Ok(0);
    }
    let v = match calc_actual_collateral(raw, accr.supply_multiplier, accr.borrow_multiplier) {
        Ok(v) => v,
        Err(e) => {
            return Err(e);
        },
    };
    let price = match get_oracle(cache, info.oracle_symbol) {
        Some(e) => e.price,
        None => {
            return Err(ErrorCode::PriceUnavailable);
        },
    };
    let usd = match mul_unit_floor(v, price) {
        Ok(u) => u,
        Err(e) => {
            return Err(e);
        },
    };
    if weighted && usd >= 0 {
        proof {
            lemma_i64_mul_fits_i128(usd as int, info.weight as int);
        }
        let wprod = (usd as i128) * (info.weight as i128);
        let w = floor_div_i128(wprod, PERMILLE as i128);
        to_i64(w)
    } else {
        Ok(usd)
    }
}

/// Per-asset collateral values of the first `n` configured slots: one entry
/// per non-empty configuration slot, in ascending index order.
pub open spec fn spec_collateral_vec(
    cols: Seq<i64>,
    infos: Seq<CollateralConfig>,
    accrs: Seq<BorrowAccrual>,
    oracles: Seq<OracleEntry>,
    n: nat,
    weighted: bool,
) -> Result<Seq<int>, ErrorCode>
    decreases n,
{
    if n == 0 {
        Ok(Seq::empty())
    } else {
        let i = (n - 1) as int;
        match spec_collateral_vec(cols, infos, accrs, oracles, (n - 1) as nat, weighted) {
            Err(e) => Err(e),
            Ok(s) => if infos[i].spec_is_empty() {
                Ok(s)
            } else {
                match spec_entry_value(cols[i] as int, infos[i], accrs[i], oracles, weighted) {
                    Err(e) => Err(e),
                    Ok(v) => Ok(s.push(v)),
                }
            },
        }
    }
}

/// Total collateral value of the first `n` configured slots: the checked sum
/// of the per-asset values.
pub open spec fn spec_collateral_value(
    cols: Seq<i64>,
    infos: Seq<CollateralConfig>,
    accrs: Seq<BorrowAccrual>,
    oracles: Seq<OracleEntry>,
    n: nat,
    weighted: bool,
) -> Result<int, ErrorCode>
    decreases n,
{
    if n == 0 {
        Ok(0)
    } else {
        let i = (n - 1) as int;
        match spec_collateral_value(cols, infos, accrs, oracles, (n - 1) as nat, weighted) {
            Err(e) => Err(e),
            Ok(acc) => if infos[i].spec_is_empty() {
                Ok(acc)
            } else {
                match spec_entry_value(cols[i] as int, infos[i], accrs[i], oracles, weighted) {
                    Err(e) => Err(e),
                    Ok(v) => guard_i64(acc + v),
                }
            },
        }
    }
}

proof fn lemma_collateral_vec_err(
    cols: Seq<i64>,
    infos: Seq<CollateralConfig>,
    accrs: Seq<BorrowAccrual>,
    oracles: Seq<OracleEntry>,
    k: nat,
    n: nat,
    weighted: bool,
)
    requires
        k <= n,
        spec_collateral_vec(cols, infos, accrs, oracles, k, weighted) is Err,
    ensures
        spec_collateral_vec(cols, infos, accrs, oracles, n, weighted) == spec_collateral_vec(
            cols,
            infos,
            accrs,
            oracles,
            k,
            weighted,
        ),
    decreases n,
{
    if n > k {
        lemma_collateral_vec_err(cols, infos, accrs, oracles, k, (n - 1) as nat, weighted);
    }
}

proof fn lemma_collateral_value_err(
    cols: Seq<i64>,
    infos: Seq<CollateralConfig>,
    accrs: Seq<BorrowAccrual>,
    oracles: Seq<OracleEntry>,
    k: nat,
    n: nat,
    weighted: bool,
)
    requires
        k <= n,
        spec_collateral_value(cols, infos, accrs, oracles, k, weighted) is Err,
    ensures
        spec_collateral_value(cols, infos, accrs, oracles, n, weighted) == spec_collateral_value(
            cols,
            infos,
            accrs,
            oracles,
            k,
            weighted,
        ),
    decreases n,
{
    if n > k {
        lemma_collateral_value_err(cols, infos, accrs, oracles, k, (n - 1) as nat, weighted);
    }
}

/// Law: a zero-balance asset never requires a price. Any two oracle tables
/// that agree on the symbols of active, nonzero-balance assets give the same
/// total collateral value, whatever they say about the others.
pub proof fn lemma_zero_balance_needs_no_price(
    cols: Seq<i64>,
    infos: Seq<CollateralConfig>,
    accrs: Seq<BorrowAccrual>,
    o1: Seq<OracleEntry>,
    o2: Seq<OracleEntry>,
    n: nat,
    weighted: bool,
)
    requires
        forall|i: int|
            0 <= i < n && !infos[i].spec_is_empty() && cols[i] != 0 ==> spec_lookup_oracle(
                o1,
                infos[i].oracle_symbol,
            ) == spec_lookup_oracle(o2, infos[i].oracle_symbol),
    ensures
        spec_collateral_value(cols, infos, accrs, o1, n, weighted) == spec_collateral_value(
            cols,
            infos,
            accrs,
            o2,
            n,
            weighted,
        ),
    decreases n,
{
    if n > 0 {
        lemma_zero_balance_needs_no_price(cols, infos, accrs, o1, o2, (n - 1) as nat, weighted);
        let i = (n - 1) as int;
        if !infos[i].spec_is_empty() {
            if cols[i] != 0 {
                assert(spec_lookup_oracle(o1, infos[i].oracle_symbol) == spec_lookup_oracle(
                    o2,
                    infos[i].oracle_symbol,
                ));
            }
            assert(spec_entry_value(cols[i] as int, infos[i], accrs[i], o1, weighted)
                == spec_entry_value(cols[i] as int, infos[i], accrs[i], o2, weighted));
        }
    }
}

/// Per-asset collateral values of an account, one entry per active
/// configuration slot, optionally weighted.
pub fn get_actual_collateral_vec(
    margin: &Margin,
    state: &State,
    cache: &Cache,
    is_weighted: bool,
) -> (r: Result<Vec<i64>, ErrorCode>)
    requires
        state.total_collaterals <= margin.collateral@.len(),
        state.total_collaterals <= state.collaterals@.len(),
        state.total_collaterals <= cache.borrow_cache@.len(),
    ensures
        match r {
            Ok(v) => spec_collateral_vec(
                margin.collateral@,
                state.collaterals@,
                cache.borrow_cache@,
                cache.oracles@,
                state.total_collaterals as nat,
                is_weighted,
            ) == Ok::<Seq<int>, ErrorCode>(seq_i64_to_int(v@)),
            Err(e) => spec_collateral_vec(
                margin.collateral@,
                state.collaterals@,
                cache.borrow_cache@,
                cache.oracles@,
                state.total_collaterals as nat,
                is_weighted,
            ) == Err::<Seq<int>, ErrorCode>(e),
        },
{
    let max_col = state.total_collaterals;
    let mut vec: Vec<i64> = Vec::new();
    let mut i: usize = 0;
    proof {
        assert(seq_i64_to_int(vec@) =~= Seq::<int>::empty());
    }
    while i < max_col
        invariant
            i <= max_col,
            max_col == state.total_collaterals,
            max_col <= margin.collateral@.len(),
            max_col <= state.collaterals@.len(),
            max_col <= cache.borrow_cache@.len(),
            spec_collateral_vec(
                margin.collateral@,
                state.collaterals@,
                cache.borrow_cache@,
                cache.oracles@,
                i as nat,
                is_weighted,
            ) == Ok::<Seq<int>, ErrorCode>(seq_i64_to_int(vec@)),
        decreases max_col - i,
{
        let info = &state.collaterals[i];
        if !info.is_empty() {
            match entry_value(
                margin.collateral[i],
                info,
                &cache.borrow_cache[i],
                cache,
                is_weighted,
            ) {
                Ok(v) => {
                    let ghost prev = seq_i64_to_int(vec@);
                    vec.push(v);
                    proof {
                        assert(seq_i64_to_int(vec@) =~= prev.push(v as int));
                    }
                },
                Err(e) => {
                    proof {
                        lemma_collateral_vec_err(
                            margin.collateral@,
                            state.collaterals@,
                            cache.borrow_cache@,
                            cache.oracles@,
                            (i + 1) as nat,
                            max_col as nat,
                            is_weighted,
                        );
                    }
                    return Err(e);
                },
            }
        }
        i = i + 1;
    }
    Ok(vec)
}

/// Total collateral value of an account per the engine's valuation rule:
/// each active, nonzero-balance asset's accrued balance is priced by oracle
/// and, when `weighted` is set and the value is non-negative, discounted by
/// the asset's weight; the values are summed with checked additions.
pub fn collateral_value(margin: &Margin, state: &State, cache: &Cache, weighted: bool) -> (r: Result<
    i64,
    ErrorCode,
>)
    requires
        state.total_collaterals <= margin.collateral@.len(),
        state.total_collaterals <= state.collaterals@.len(),
        state.total_collaterals <= cache.borrow_cache@.len(),
    ensures
        res_matches(
            r,
            spec_collateral_value(
                margin.collateral@,
                state.collaterals@,
                cache.borrow_cache@,
                cache.oracles@,
                state.total_collaterals as nat,
                weighted,
            ),
        ),
{
    let max_col = state.total_collaterals;
    let mut total: i64 = 0;
    let mut i: usize = 0;
    while i < max_col
        invariant
            i <= max_col,
            max_col == state.total_collaterals,
            max_col <= margin.collateral@.len(),
            max_col <= state.collaterals@.len(),
            max_col <= cache.borrow_cache@.len(),
            spec_collateral_value(
                margin.collateral@,
                state.collaterals@,
                cache.borrow_cache@,
                cache.oracles@,
                i as nat,
                weighted,
            ) == Ok::<int, ErrorCode>(total as int),
        decreases max_col - i,
{
        let info = &state.collaterals[i];
        if !info.is_empty() {
            match entry_value(
                margin.collateral[i],
                info,
                &cache.borrow_cache[i],
                cache,
                weighted,
            ) {
                Ok(v) => {
                    match safe_add_i64(total, v) {
                        Ok(t) => {
                            total = t;
                        },
                        Err(e) => {
                            proof {
                                lemma_collateral_value_err(
                                    margin.collateral@,
                                    state.collaterals@,
                                    cache.borrow_cache@,
                                    cache.oracles@,
                                    (i + 1) as nat,
                                    max_col as nat,
                                    weighted,
                                );
                            }
                            return Err(e);
                        },
                    }
                },
                Err(e) => {
                    proof {
                        lemma_collateral_value_err(
                            margin.collateral@,
                            state.collaterals@,
                            cache.borrow_cache@,
                            cache.oracles@,
                            (i + 1) as nat,
                            max_col as nat,
                            weighted,
                        );
                    }
                    return Err(e);
                },
            }
        }
        i = i + 1;
    }
    Ok(total)
}

/// Headline weighted collateral value of an account, estimated from the
/// oracle price table. The starting point of position-value accumulation and
/// an input to liquidation sizing.
pub fn get_total_collateral(margin: &Margin, cache: &Cache, state: &State) -> (r: Result<
    i64,
    ErrorCode,
>)
    requires
        state.total_collaterals <= margin.collateral@.len(),
        state.total_collaterals <= state.collaterals@.len(),
        state.total_collaterals <= cache.borrow_cache@.len(),
    ensures
        res_matches(
            r,
            spec_collateral_value(
                margin.collateral@,
                state.collaterals@,
                cache.borrow_cache@,
                cache.oracles@,
                state.total_collaterals as nat,
                true,
            ),
        ),
{
    collateral_value(margin, state, cache, true)
}

} // verus!
