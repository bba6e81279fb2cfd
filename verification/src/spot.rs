use vstd::prelude::*;

verus! {

use vstd::arithmetic::div_mod::*;
use crate::data::{BorrowAccrual, Cache, CollateralConfig, MfReturnOption, OracleEntry,
    SPOT_INITIAL_MARGIN_REQ, SPOT_MAINT_MARGIN_REQ, get_oracle, spec_lookup_oracle};
use crate::error::ErrorCode;
use crate::math::{PERMILLE, UNIT, ceil_div, ceil_div_i128, guard_i64, lemma_mul_fits_i128,
    lemma_seq_i64_to_int_push, res_matches, safe_add_i64, seq_i64_to_int, to_i64};
use crate::valuation::{calc_actual_collateral, spec_actual_collateral};

/// Running aggregate of a pass over an account's spot borrows: the
/// open-exposure flag and the parallel margin-factor and notional vectors,
/// one entry per active borrowed asset in ascending index order.
pub ghost struct SpotState {
    pub has_open_pos_notional: bool,
    pub imf_vec: Seq<int>,
    pub mmf_vec: Seq<int>,
    pub notional_vec: Seq<int>,
}

/// Executable counterpart of `SpotState`.
pub struct SpotBorrows {
    pub has_open_pos_notional: bool,
    pub imf_vec: Vec<i64>,
    pub mmf_vec: Vec<i64>,
    pub pos_notional_vec: Vec<i64>,
}

impl View for SpotBorrows {
    type V = SpotState;

    open spec fn view(&self) -> SpotState {
        SpotState {
            has_open_pos_notional: self.has_open_pos_notional,
            imf_vec: seq_i64_to_int(self.imf_vec@),
            mmf_vec: seq_i64_to_int(self.mmf_vec@),
            notional_vec: seq_i64_to_int(self.pos_notional_vec@),
        }
    }
}

/// Spot margin factor of an asset: the protocol requirement ratio divided by
/// the asset's permille weight, rounded up, less one thousand permille. A
/// zero weight is a configuration error.
pub open spec fn spec_spot_factor(req: int, weight: int) -> Result<int, ErrorCode> {
    if weight == 0 {
        Err(ErrorCode::DivisionByZero)
    } else {
        Ok(ceil_div(req, weight) - PERMILLE as int)
    }
}

/// Spot margin factor of an asset; see `spec_spot_factor`.
pub fn spot_factor(req: u64, weight: u16) -> (r: Result<i64, ErrorCode>)
    requires
        req <= i64::MAX,
    ensures
        res_matches(r, spec_spot_factor(req as int, weight as int)),
{
    if weight == 0 {
        return Err(ErrorCode::DivisionByZero);
    }
    let w = weight as u64;
    let q = req / w;
    let rem = req % w;
    proof {
        lemma_fundamental_div_mod(req as int, w as int);
        assert((w as int) * (q as int) >= q as int) by (nonlinear_arith)
            requires
                w >= 1 && q >= 0,
        ;
        if rem != 0 {
            assert(-(req as int) == (-(q as int) - 1) * (w as int) + (w - rem)) by (nonlinear_arith)
                requires
                    req as int == (w as int) * (q as int) + (rem as int) && 0 < rem < w,
            ;
            lemma_fundamental_div_mod_converse(-(req as int), w as int, -(q as int) - 1, (w - rem) as int);
        } else {
            assert(-(req as int) == (-(q as int)) * (w as int) + 0) by (nonlinear_arith)
                requires
                    req as int == (w as int) * (q as int) && rem == 0,
            ;
            lemma_fundamental_div_mod_converse(-(req as int), w as int, -(q as int), 0);
        }
    }
    let c = if rem != 0 {
        q + 1
    } else {
        q
    };
    Ok(c as i64 - PERMILLE)
}

/// One step of the spot borrow aggregation: only assets whose raw balance is
/// negative participate. The accrued (always negative) balance — plus the
/// running realized profit and loss when this is the designated base asset —
/// is priced by oracle, its negation's notional rounded up; a positive
/// notional marks open exposure; the factor pushed depends on the requested
/// option, with the cancel option reusing the initial requirement ratio.
pub open spec fn spec_spot_step(
    st: SpotState,
    col: i64,
    info: CollateralConfig,
    accr: BorrowAccrual,
    oracles: Seq<OracleEntry>,
    is_base: bool,
    total_realized_pnl: int,
    opt: MfReturnOption,
) -> Result<SpotState, ErrorCode> {
    if col >= 0 {
        Ok(st)
    } else {
        match spec_actual_collateral(
            col as int,
            accr.supply_multiplier as int,
            accr.borrow_multiplier as int,
        ) {
            Err(e) => Err(e),
            Ok(dep0) => match (if is_base {
                guard_i64(dep0 + total_realized_pnl)
            } else {
                Ok(dep0)
            }) {
                Err(e) => Err(e),
                Ok(dep) => match spec_lookup_oracle(oracles, info.oracle_symbol) {
                    None => Err(ErrorCode::PriceUnavailable),
                    Some(price) => match guard_i64(ceil_div(price as int * -dep, UNIT as int)) {
                        Err(e) => Err(e),
                        Ok(pn) => {
                            let base = SpotState {
                                has_open_pos_notional: st.has_open_pos_notional || pn > 0,
                                imf_vec: st.imf_vec,
                                mmf_vec: st.mmf_vec,
                                notional_vec: st.notional_vec.push(pn),
                            };
                            match opt {
                                MfReturnOption::Imf | MfReturnOption::Cancel => match spec_spot_factor(
                                    SPOT_INITIAL_MARGIN_REQ as int,
                                    info.weight as int,
                                ) {
                                    Err(e) => Err(e),
                                    Ok(f) => Ok(
                                        SpotState { imf_vec: base.imf_vec.push(f), ..base },
                                    ),
                                },
                                MfReturnOption::Mmf => match spec_spot_factor(
                                    SPOT_MAINT_MARGIN_REQ as int,
                                    info.weight as int,
                                ) {
                                    Err(e) => Err(e),
                                    Ok(f) => Ok(
                                        SpotState { mmf_vec: base.mmf_vec.push(f), ..base },
                                    ),
                                },
                                MfReturnOption::Both => match spec_spot_factor(
                                    SPOT_INITIAL_MARGIN_REQ as int,
                                    info.weight as int,
                                ) {
                                    Err(e) => Err(e),
                                    Ok(fi) => match spec_spot_factor(
                                        SPOT_MAINT_MARGIN_REQ as int,
                                        info.weight as int,
                                    ) {
                                        Err(e) => Err(e),
                                        Ok(fm) => Ok(
                                            SpotState {
                                                imf_vec: base.imf_vec.push(fi),
                                                mmf_vec: base.mmf_vec.push(fm),
                                                ..base
                                            },
                                        ),
                                    },
                                },
                            }
                        },
                    },
                },
            },
        }
    }
}

/// The aggregate before any asset is processed.
pub open spec fn spec_spot_init() -> SpotState {
    SpotState {
        has_open_pos_notional: false,
        imf_vec: Seq::empty(),
        mmf_vec: Seq::empty(),
        notional_vec: Seq::empty(),
    }
}

/// Spot borrow aggregation over the first `n` collateral slots, in ascending
/// index order; slot 0 is the designated base asset.
pub open spec fn spec_spot_fold(
    n: nat,
    cols: Seq<i64>,
    infos: Seq<CollateralConfig>,
    accrs: Seq<BorrowAccrual>,
    oracles: Seq<OracleEntry>,
    total_realized_pnl: int,
    opt: MfReturnOption,
) -> Result<SpotState, ErrorCode>
    decreases n,
{
    if n == 0 {
        Ok(spec_spot_init())
    } else {
        let i = (n - 1) as int;
        match spec_spot_fold((n - 1) as nat, cols, infos, accrs, oracles, total_realized_pnl, opt) {
            Err(e) => Err(e),
            Ok(st) => spec_spot_step(
                st,
                cols[i],
                infos[i],
                accrs[i],
                oracles,
                i == 0,
                total_realized_pnl,
                opt,
            ),
        }
    }
}

pub proof fn lemma_spot_fold_err(
    k: nat,
    n: nat,
    cols: Seq<i64>,
    infos: Seq<CollateralConfig>,
    accrs: Seq<BorrowAccrual>,
    oracles: Seq<OracleEntry>,
    total_realized_pnl: int,
    opt: MfReturnOption,
)
    requires
        k <= n,
        spec_spot_fold(k, cols, infos, accrs, oracles, total_realized_pnl, opt) is Err,
    ensures
        spec_spot_fold(n, cols, infos, accrs, oracles, total_realized_pnl, opt) == spec_spot_fold(
            k,
            cols,
            infos,
            accrs,
            oracles,
            total_realized_pnl,
            opt,
        ),
    decreases n,
{
    if n > k {
        lemma_spot_fold_err(k, (n - 1) as nat, cols, infos, accrs, oracles, total_realized_pnl, opt);
    }
}

/// The factor vectors a spot fold produces run parallel to its notional
/// vector: which of them are filled depends only on the requested option.
pub proof fn lemma_spot_fold_lens(
    n: nat,
    cols: Seq<i64>,
    infos: Seq<CollateralConfig>,
    accrs: Seq<BorrowAccrual>,
    oracles: Seq<OracleEntry>,
    total_realized_pnl: int,
    opt: MfReturnOption,
)
    requires
        spec_spot_fold(n, cols, infos, accrs, oracles, total_realized_pnl, opt) is Ok,
    ensures
        ({
            let st = spec_spot_fold(n, cols, infos, accrs, oracles, total_realized_pnl, opt)->Ok_0;
            &&& (opt == MfReturnOption::Imf || opt == MfReturnOption::Cancel) ==> st.imf_vec.len()
                == st.notional_vec.len() && st.mmf_vec.len() == 0
            &&& opt == MfReturnOption::Mmf ==> st.mmf_vec.len() == st.notional_vec.len()
                && st.imf_vec.len() == 0
            &&& opt == MfReturnOption::Both ==> st.imf_vec.len() == st.notional_vec.len()
                && st.mmf_vec.len() == st.notional_vec.len()
        }),
    decreases n,
{
    if n > 0 {
        lemma_spot_fold_lens(
            (n - 1) as nat,
            cols,
            infos,
            accrs,
            oracles,
            total_realized_pnl,
            opt,
        );
    }
}

/// Law: the open-exposure flag of a spot aggregation holds exactly when some
/// processed borrow has a positive notional.
pub proof fn lemma_spot_fold_has_open(
    n: nat,
    cols: Seq<i64>,
    infos: Seq<CollateralConfig>,
    accrs: Seq<BorrowAccrual>,
    oracles: Seq<OracleEntry>,
    total_realized_pnl: int,
    opt: MfReturnOption,
)
    requires
        spec_spot_fold(n, cols, infos, accrs, oracles, total_realized_pnl, opt) is Ok,
    ensures
        ({
            let st = spec_spot_fold(n, cols, infos, accrs, oracles, total_realized_pnl, opt)->Ok_0;
            st.has_open_pos_notional <==> exists|i: int|
                0 <= i < st.notional_vec.len() && st.notional_vec[i] > 0
        }),
    decreases n,
{
    if n > 0 {
        lemma_spot_fold_has_open(
            (n - 1) as nat,
            cols,
            infos,
            accrs,
            oracles,
            total_realized_pnl,
            opt,
        );
        let prev = spec_spot_fold(
            (n - 1) as nat,
            cols,
            infos,
            accrs,
            oracles,
            total_realized_pnl,
            opt,
        )->Ok_0;
        let st = spec_spot_fold(n, cols, infos, accrs, oracles, total_realized_pnl, opt)->Ok_0;
        let i = (n - 1) as int;
        if cols[i] >= 0 {
        } else {
            if st.has_open_pos_notional {
                if prev.has_open_pos_notional {
                    let w = choose|j: int|
                        0 <= j < prev.notional_vec.len() && prev.notional_vec[j] > 0;
                    assert(st.notional_vec[w] > 0);
                } else {
                    assert(st.notional_vec[st.notional_vec.len() - 1] > 0);
                }
            } else {
                assert forall|j: int|
                    0 <= j < st.notional_vec.len() implies st.notional_vec[j] <= 0 by {
                    if j < prev.notional_vec.len() {
                        assert(st.notional_vec[j] == prev.notional_vec[j]);
                    }
                }
            }
        }
    }
}

/// Walks an account's negative collateral balances in ascending index order,
/// collecting margin factors and notionals; see `spec_spot_fold`.
pub fn get_spot_borrows(
    return_option: MfReturnOption,
    max_cols: usize,
    col_arr: &Vec<i64>,
    col_info_arr: &Vec<CollateralConfig>,
    cache: &Cache,
    total_realized_pnl: i64,
) -> (r: Result<SpotBorrows, ErrorCode>)
    requires
        max_cols <= col_arr@.len(),
        max_cols <= col_info_arr@.len(),
        max_cols <= cache.borrow_cache@.len(),
    ensures
        match r {
            Ok(s) => spec_spot_fold(
                max_cols as nat,
                col_arr@,
                col_info_arr@,
                cache.borrow_cache@,
                cache.oracles@,
                total_realized_pnl as int,
                return_option,
            ) == Ok::<SpotState, ErrorCode>(s@),
            Err(e) => spec_spot_fold(
                max_cols as nat,
                col_arr@,
                col_info_arr@,
                cache.borrow_cache@,
                cache.oracles@,
                total_realized_pnl as int,
                return_option,
            ) == Err::<SpotState, ErrorCode>(e),
        },
{
    let mut out = SpotBorrows {
        has_open_pos_notional: false,
        imf_vec: Vec::new(),
        mmf_vec: Vec::new(),
        pos_notional_vec: Vec::new(),
    };
    proof {
        assert(seq_i64_to_int(out.imf_vec@) =~= Seq::<int>::empty());
        assert(seq_i64_to_int(out.mmf_vec@) =~= Seq::<int>::empty());
        assert(seq_i64_to_int(out.pos_notional_vec@) =~= Seq::<int>::empty());
        assert(out@ == spec_spot_init());
    }
    let mut dep_index: usize = 0;
    while dep_index < max_cols
        invariant
            dep_index <= max_cols,
            max_cols <= col_arr@.len(),
            max_cols <= col_info_arr@.len(),
            max_cols <= cache.borrow_cache@.len(),
            spec_spot_fold(
                dep_index as nat,
                col_arr@,
                col_info_arr@,
                cache.borrow_cache@,
                cache.oracles@,
                total_realized_pnl as int,
                return_option,
            ) == Ok::<SpotState, ErrorCode>(out@),
        decreases max_cols - dep_index,
    {
        let ghost imf0 = out.imf_vec@;
        let ghost mmf0 = out.mmf_vec@;
        let ghost not0 = out.pos_notional_vec@;
        let col = col_arr[dep_index];
        if col < 0 {
            let bor_info = &cache.borrow_cache[dep_index];
            let info = &col_info_arr[dep_index];
            let dep0 = match calc_actual_collateral(
                col,
                bor_info.supply_multiplier,
                bor_info.borrow_multiplier,
            ) {
                Ok(v) => v,
                Err(e) => {
                    proof {
                        lemma_spot_fold_err(
                            (dep_index + 1) as nat,
                            max_cols as nat,
                            col_arr@,
                            col_info_arr@,
                            cache.borrow_cache@,
                            cache.oracles@,
                            total_realized_pnl as int,
                            return_option,
                        );
                    }
                    return Err(e);
                },
            };
            let dep = if dep_index == 0 {
                match safe_add_i64(dep0, total_realized_pnl) {
                    Ok(v) => v,
                    Err(e) => {
                        proof {
                            lemma_spot_fold_err(
                                (dep_index + 1) as nat,
                                max_cols as nat,
                                col_arr@,
                                col_info_arr@,
                                cache.borrow_cache@,
                                cache.oracles@,
                                total_realized_pnl as int,
                                return_option,
                            );
                        }
                        return Err(e);
                    },
                }
            } else {
                dep0
            };
            let price = match get_oracle(cache, info.oracle_symbol) {
                Some(e) => e.price,
                None => {
                    proof {
                        lemma_spot_fold_err(
                            (dep_index + 1) as nat,
                            max_cols as nat,
                            col_arr@,
                            col_info_arr@,
                            cache.borrow_cache@,
                            cache.oracles@,
                            total_realized_pnl as int,
                            return_option,
                        );
                    }
                    return Err(ErrorCode::PriceUnavailable);
                },
            };
            proof {
                lemma_mul_fits_i128(
                    price as int,
                    -(dep as int),
                    0x8000_0000_0000_0000,
                    0x8000_0000_0000_0000,
                );
            }
            let nd: i128 = -(dep as i128);
            let pn = match to_i64(ceil_div_i128((price as i128) * nd, UNIT as i128)) {
                Ok(v) => v,
                Err(e) => {
                    proof {
                        lemma_spot_fold_err(
                            (dep_index + 1) as nat,
                            max_cols as nat,
                            col_arr@,
                            col_info_arr@,
                            cache.borrow_cache@,
                            cache.oracles@,
                            total_realized_pnl as int,
                            return_option,
                        );
                    }
                    return Err(e);
                },
            };
            let fr = match return_option {
                MfReturnOption::Imf | MfReturnOption::Cancel => {
                    match spot_factor(SPOT_INITIAL_MARGIN_REQ, info.weight) {
                        Ok(f) => Ok((Some(f), None::<i64>)),
                        Err(e) => Err(e),
                    }
                },
                MfReturnOption::Mmf => {
                    match spot_factor(SPOT_MAINT_MARGIN_REQ, info.weight) {
                        Ok(f) => Ok((None::<i64>, Some(f))),
                        Err(e) => Err(e),
                    }
                },
                MfReturnOption::Both => {
                    match spot_factor(SPOT_INITIAL_MARGIN_REQ, info.weight) {
                        Ok(fi) => match spot_factor(SPOT_MAINT_MARGIN_REQ, info.weight) {
                            Ok(fm) => Ok((Some(fi), Some(fm))),
                            Err(e) => Err(e),
                        },
                        Err(e) => Err(e),
                    }
                },
            };
            let (imf, mmf) = match fr {
                Ok(p) => p,
                Err(e) => {
                    proof {
                        lemma_spot_fold_err(
                            (dep_index + 1) as nat,
                            max_cols as nat,
                            col_arr@,
                            col_info_arr@,
                            cache.borrow_cache@,
                            cache.oracles@,
                            total_realized_pnl as int,
                            return_option,
                        );
                    }
                    return Err(e);
                },
            };
            if pn > 0 {
                out.has_open_pos_notional = true;
            }
            match imf {
                Some(f) => {
                    out.imf_vec.push(f);
                    proof {
                        lemma_seq_i64_to_int_push(imf0, f);
                    }
                },
                None => {},
            }
            match mmf {
                Some(f) => {
                    out.mmf_vec.push(f);
                    proof {
                        lemma_seq_i64_to_int_push(mmf0, f);
                    }
                },
                None => {},
            }
            out.pos_notional_vec.push(pn);
            proof {
                lemma_seq_i64_to_int_push(not0, pn);
                assert(spec_spot_fold(
                    (dep_index + 1) as nat,
                    col_arr@,
                    col_info_arr@,
                    cache.borrow_cache@,
                    cache.oracles@,
                    total_realized_pnl as int,
                    return_option,
                ) == Ok::<SpotState, ErrorCode>(out@));
            }
        } else {
            proof {
                assert(spec_spot_fold(
                    (dep_index + 1) as nat,
                    col_arr@,
                    col_info_arr@,
                    cache.borrow_cache@,
                    cache.oracles@,
                    total_realized_pnl as int,
                    return_option,
                ) == Ok::<SpotState, ErrorCode>(out@));
            }
        }
        dep_index = dep_index + 1;
    }
    Ok(out)
}

} // verus!
