use vstd::prelude::*;

verus! {

use vstd::math::abs;
use crate::data::{MfReturnOption, PerpMarketConfig, Position};
use crate::error::ErrorCode;
use crate::math::{UNIT, ceil_div, ceil_div_i128, floor_div, floor_div_i128, guard_i64, in_i64,
    in_i128, lemma_huge_ratio_overflows, lemma_mul_fits_i128, lemma_pow10_pos,
    lemma_seq_i64_to_int_push, mul_unit_floor, pow10, pow10_i64, res_matches, safe_add_i64,
    seq_i64_to_int, to_i64};

/// Running aggregate of a pass over an account's perpetual positions:
/// the account value threaded through the loop, the open-exposure flag, the
/// accumulated realized profit and loss, and the parallel margin-factor and
/// notional vectors, one entry per active position in ascending market order.
pub ghost struct PerpAccState {
    pub total_acc_value: int,
    pub has_open_pos_notional: bool,
    pub total_realized_pnl: int,
    pub pimf_vec: Seq<int>,
    pub pmmf_vec: Seq<int>,
    pub pcmf_vec: Seq<int>,
    pub pos_open_notional_vec: Seq<int>,
    pub pos_notional_vec: Seq<int>,
}

/// Executable counterpart of `PerpAccState`.
pub struct PerpAccParams {
    pub total_acc_value: i64,
    pub has_open_pos_notional: bool,
    pub total_realized_pnl: i64,
    pub pimf_vec: Vec<i64>,
    pub pmmf_vec: Vec<i64>,
    pub pcmf_vec: Vec<i64>,
    pub pos_open_notional_vec: Vec<i64>,
    pub pos_notional_vec: Vec<i64>,
}

impl View for PerpAccParams {
    type V = PerpAccState;

    open spec fn view(&self) -> PerpAccState {
        PerpAccState {
            total_acc_value: self.total_acc_value as int,
            has_open_pos_notional: self.has_open_pos_notional,
            total_realized_pnl: self.total_realized_pnl as int,
            pimf_vec: seq_i64_to_int(self.pimf_vec@),
            pmmf_vec: seq_i64_to_int(self.pmmf_vec@),
            pcmf_vec: seq_i64_to_int(self.pcmf_vec@),
            pos_open_notional_vec: seq_i64_to_int(self.pos_open_notional_vec@),
            pos_notional_vec: seq_i64_to_int(self.pos_notional_vec@),
        }
    }
}

/// The initial margin factor of a market is its configured base factor.
pub open spec fn spec_initial_factor(base_imf: int) -> int {
    base_imf
}

/// The maintenance margin factor is half the base factor, rounded down.
pub open spec fn spec_maintenance_factor(base_imf: int) -> int {
    base_imf / 2
}

/// The cancel margin factor is five eighths of the base factor, rounded down.
pub open spec fn spec_cancel_factor(base_imf: int) -> int {
    base_imf * 5 / 8
}

/// Law: for every market the maintenance factor is exactly half of the
/// initial factor (integer floor division) and the cancel factor exactly
/// five eighths of it.
pub proof fn lemma_factor_ratios(base_imf: int)
    ensures
        spec_maintenance_factor(base_imf) == spec_initial_factor(base_imf) / 2,
        spec_cancel_factor(base_imf) == spec_initial_factor(base_imf) * 5 / 8,
{
}

/// New running account value after one position: realized profit and loss,
/// unrealized profit and loss at the mark price (rounded down, conservative),
/// and funding settled since the position's last funding index (rounded
/// down), all added to the incoming value with checked 64-bit steps.
pub open spec fn spec_calc_acc_val(
    collateral: int,
    mark: int,
    pos_size: int,
    native_pc_total: int,
    realized_pnl: int,
    current_funding_index: int,
    market_funding_index: int,
    decimals: nat,
) -> Result<int, ErrorCode> {
    if pos_size == 0 {
        guard_i64(collateral + realized_pnl)
    } else {
        let fd = market_funding_index - current_funding_index;
        if !in_i128(fd) {
            Err(ErrorCode::Overflow)
        } else if !in_i128(-fd) {
            Err(ErrorCode::Overflow)
        } else if !in_i128(pos_size * -fd) {
            Err(ErrorCode::Overflow)
        } else {
            match guard_i64(floor_div(pos_size * -fd, pow10(decimals))) {
                Err(e) => Err(e),
                Ok(uf) => match (if pos_size > 0 {
                    match guard_i64(floor_div(pos_size * mark, UNIT as int)) {
                        Err(e) => Err(e),
                        Ok(pos) => if !in_i64(-native_pc_total) {
                            Err(ErrorCode::Overflow)
                        } else {
                            guard_i64(pos - -native_pc_total)
                        },
                    }
                } else {
                    match guard_i64(floor_div((-pos_size) * mark, UNIT as int)) {
                        Err(e) => Err(e),
                        Ok(bor) => guard_i64(native_pc_total - bor),
                    }
                }) {
                    Err(e) => Err(e),
                    Ok(upnl) => match guard_i64(collateral + realized_pnl) {
                        Err(e) => Err(e),
                        Ok(s1) => match guard_i64(s1 + upnl) {
                            Err(e) => Err(e),
                            Ok(s2) => guard_i64(s2 + uf),
                        },
                    },
                },
            }
        }
    }
}

/// Raw notional exposure of a position: its absolute size at the mark price,
/// rounded up (exposure is never understated).
pub open spec fn spec_position_notional(pos_size: int, mark: int) -> Result<int, ErrorCode> {
    guard_i64(ceil_div(abs(pos_size) * mark, UNIT as int))
}

/// Worst-case notional exposure of a position if all resting orders on the
/// more dangerous side filled, rounded up.
pub open spec fn spec_open_notional(pos_size: int, bids: int, asks: int, mark: int) -> Result<
    int,
    ErrorCode,
> {
    let wb = abs(pos_size + bids) as int;
    let wa = abs(pos_size - asks) as int;
    let worst = if wb >= wa {
        wb
    } else {
        wa
    };
    guard_i64(ceil_div(worst * mark, UNIT as int))
}

/// One step of the perpetual aggregation: an empty slot is skipped, any
/// other position updates the running account value, pushes its margin
/// factors (per the requested option) and notionals, marks open exposure
/// when its worst-case notional is positive, and accumulates realized
/// profit and loss.
pub open spec fn spec_perp_step(
    st: PerpAccState,
    oo: Position,
    mark: i64,
    pmc: PerpMarketConfig,
    market_funding: i128,
    opt: MfReturnOption,
) -> Result<PerpAccState, ErrorCode> {
    if oo.key.spec_is_empty() {
        Ok(st)
    } else {
        match spec_calc_acc_val(
            st.total_acc_value,
            mark as int,
            oo.pos_size as int,
            oo.native_pc_total as int,
            oo.realized_pnl as int,
            oo.funding_index as int,
            market_funding as int,
            pmc.asset_decimals as nat,
        ) {
            Err(e) => Err(e),
            Ok(acc) => match spec_position_notional(oo.pos_size as int, mark as int) {
                Err(e) => Err(e),
                Ok(pn) => match spec_open_notional(
                    oo.pos_size as int,
                    oo.coin_on_bids as int,
                    oo.coin_on_asks as int,
                    mark as int,
                ) {
                    Err(e) => Err(e),
                    Ok(opn) => match guard_i64(st.total_realized_pnl + oo.realized_pnl) {
                        Err(e) => Err(e),
                        Ok(trp) => Ok(
                            PerpAccState {
                                total_acc_value: acc,
                                has_open_pos_notional: st.has_open_pos_notional || opn > 0,
                                total_realized_pnl: trp,
                                pimf_vec: if opt == MfReturnOption::Imf || opt
                                    == MfReturnOption::Both {
                                    st.pimf_vec.push(spec_initial_factor(pmc.base_imf as int))
                                } else {
                                    st.pimf_vec
                                },
                                pmmf_vec: if opt == MfReturnOption::Mmf || opt
                                    == MfReturnOption::Both {
                                    st.pmmf_vec.push(spec_maintenance_factor(pmc.base_imf as int))
                                } else {
                                    st.pmmf_vec
                                },
                                pcmf_vec: if opt == MfReturnOption::Cancel {
                                    st.pcmf_vec.push(spec_cancel_factor(pmc.base_imf as int))
                                } else {
                                    st.pcmf_vec
                                },
                                pos_open_notional_vec: st.pos_open_notional_vec.push(opn),
                                pos_notional_vec: st.pos_notional_vec.push(pn),
                            },
                        ),
                    },
                },
            },
        }
    }
}

/// The aggregate before any position is processed: the account value is the
/// incoming collateral value and every vector is empty.
pub open spec fn spec_perp_init(col: int) -> PerpAccState {
    PerpAccState {
        total_acc_value: col,
        has_open_pos_notional: false,
        total_realized_pnl: 0,
        pimf_vec: Seq::empty(),
        pmmf_vec: Seq::empty(),
        pcmf_vec: Seq::empty(),
        pos_open_notional_vec: Seq::empty(),
        pos_notional_vec: Seq::empty(),
    }
}

/// Perpetual aggregation over the first `n` markets, in ascending index
/// order, threading the running account value through every step.
pub open spec fn spec_perp_fold(
    col: int,
    opt: MfReturnOption,
    n: nat,
    oo: Seq<Position>,
    marks: Seq<i64>,
    pm: Seq<PerpMarketConfig>,
    funding: Seq<i128>,
) -> Result<PerpAccState, ErrorCode>
    decreases n,
{
    if n == 0 {
        Ok(spec_perp_init(col))
    } else {
        let i = (n - 1) as int;
        match spec_perp_fold(col, opt, (n - 1) as nat, oo, marks, pm, funding) {
            Err(e) => Err(e),
            Ok(st) => spec_perp_step(st, oo[i], marks[i], pm[i], funding[i], opt),
        }
    }
}

pub proof fn lemma_perp_fold_err(
    col: int,
    opt: MfReturnOption,
    k: nat,
    n: nat,
    oo: Seq<Position>,
    marks: Seq<i64>,
    pm: Seq<PerpMarketConfig>,
    funding: Seq<i128>,
)
    requires
        k <= n,
        spec_perp_fold(col, opt, k, oo, marks, pm, funding) is Err,
    ensures
        spec_perp_fold(col, opt, n, oo, marks, pm, funding) == spec_perp_fold(
            col,
            opt,
            k,
            oo,
            marks,
            pm,
            funding,
        ),
    decreases n,
{
    if n > k {
        lemma_perp_fold_err(col, opt, k, (n - 1) as nat, oo, marks, pm, funding);
    }
}

/// The factor vectors a fold produces run parallel to its notional vectors:
/// which of them are filled depends only on the requested option.
pub proof fn lemma_perp_fold_lens(
    col: int,
    opt: MfReturnOption,
    n: nat,
    oo: Seq<Position>,
    marks: Seq<i64>,
    pm: Seq<PerpMarketConfig>,
    funding: Seq<i128>,
)
    requires
        spec_perp_fold(col, opt, n, oo, marks, pm, funding) is Ok,
    ensures
        ({
            let st = spec_perp_fold(col, opt, n, oo, marks, pm, funding)->Ok_0;
            &&& st.pos_notional_vec.len() == st.pos_open_notional_vec.len()
            &&& (opt == MfReturnOption::Imf || opt == MfReturnOption::Both)
                ==> st.pimf_vec.len() == st.pos_open_notional_vec.len()
            &&& (opt == MfReturnOption::Mmf || opt == MfReturnOption::Both)
                ==> st.pmmf_vec.len() == st.pos_open_notional_vec.len()
            &&& opt == MfReturnOption::Cancel ==> st.pcmf_vec.len()
                == st.pos_open_notional_vec.len()
        }),
    decreases n,
{
    if n > 0 {
        lemma_perp_fold_lens(col, opt, (n - 1) as nat, oo, marks, pm, funding);
    }
}

/// Law: the open-exposure flag of a perpetual aggregation holds exactly when
/// some processed position has a positive worst-case notional.
pub proof fn lemma_perp_fold_has_open(
    col: int,
    opt: MfReturnOption,
    n: nat,
    oo: Seq<Position>,
    marks: Seq<i64>,
    pm: Seq<PerpMarketConfig>,
    funding: Seq<i128>,
)
    requires
        spec_perp_fold(col, opt, n, oo, marks, pm, funding) is Ok,
    ensures
        ({
            let st = spec_perp_fold(col, opt, n, oo, marks, pm, funding)->Ok_0;
            st.has_open_pos_notional <==> exists|i: int|
                0 <= i < st.pos_open_notional_vec.len() && st.pos_open_notional_vec[i] > 0
        }),
    decreases n,
{
    if n > 0 {
        lemma_perp_fold_has_open(col, opt, (n - 1) as nat, oo, marks, pm, funding);
        let prev = spec_perp_fold(col, opt, (n - 1) as nat, oo, marks, pm, funding)->Ok_0;
        let st = spec_perp_fold(col, opt, n, oo, marks, pm, funding)->Ok_0;
        let i = (n - 1) as int;
        if oo[i].key.spec_is_empty() {
        } else {
            let opn = st.pos_open_notional_vec.last();
            if st.has_open_pos_notional {
                if prev.has_open_pos_notional {
                    let w = choose|j: int|
                        0 <= j < prev.pos_open_notional_vec.len()
                            && prev.pos_open_notional_vec[j] > 0;
                    assert(st.pos_open_notional_vec[w] > 0);
                } else {
                    assert(st.pos_open_notional_vec[st.pos_open_notional_vec.len() - 1] > 0);
                }
            } else {
                assert forall|j: int|
                    0 <= j < st.pos_open_notional_vec.len() implies st.pos_open_notional_vec[j]
                    <= 0 by {
                    if j < prev.pos_open_notional_vec.len() {
                        assert(st.pos_open_notional_vec[j] == prev.pos_open_notional_vec[j]);
                    }
                }
            }
        }
    }
}

/// Law: in combined mode every maintenance factor the fold produces is
/// exactly half of the initial factor produced for the same position.
pub proof fn lemma_perp_fold_maintenance_half(
    col: int,
    n: nat,
    oo: Seq<Position>,
    marks: Seq<i64>,
    pm: Seq<PerpMarketConfig>,
    funding: Seq<i128>,
)
    requires
        spec_perp_fold(col, MfReturnOption::Both, n, oo, marks, pm, funding) is Ok,
    ensures
        ({
            let st = spec_perp_fold(col, MfReturnOption::Both, n, oo, marks, pm, funding)->Ok_0;
            &&& st.pmmf_vec.len() == st.pimf_vec.len()
            &&& forall|i: int|
                0 <= i < st.pimf_vec.len() ==> st.pmmf_vec[i] == #[trigger] st.pimf_vec[i] / 2
        }),
    decreases n,
{
    if n > 0 {
        lemma_perp_fold_maintenance_half(col, (n - 1) as nat, oo, marks, pm, funding);
    }
}

/// Raw notional exposure of a position at the mark price, rounded up.
pub fn position_notional(pos_size: i64, mark: i64) -> (r: Result<i64, ErrorCode>)
    ensures
        res_matches(r, spec_position_notional(pos_size as int, mark as int)),
{
    let aps: i128 = if pos_size >= 0 {
        pos_size as i128
    } else {
        -(pos_size as i128)
    };
    proof {
        lemma_mul_fits_i128(
            aps as int,
            mark as int,
            0x8000_0000_0000_0000,
            0x8000_0000_0000_0000,
        );
    }
    let prod = aps * (mark as i128);
    let c = ceil_div_i128(prod, UNIT as i128);
    to_i64(c)
}

/// Worst-case notional exposure of a position including resting orders,
/// rounded up.
pub fn open_notional(pos_size: i64, bids: u64, asks: u64, mark: i64) -> (r: Result<i64, ErrorCode>)
    ensures
        res_matches(
            r,
            spec_open_notional(pos_size as int, bids as int, asks as int, mark as int),
        ),
{
    let wb: i128 = pos_size as i128 + bids as i128;
    let wa: i128 = pos_size as i128 - asks as i128;
    let awb: i128 = if wb >= 0 {
        wb
    } else {
        -wb
    };
    let awa: i128 = if wa >= 0 {
        wa
    } else {
        -wa
    };
    let worst: i128 = if awb >= awa {
        awb
    } else {
        awa
    };
    match worst.checked_mul(mark as i128) {
        Some(prod) => {
            let c = ceil_div_i128(prod, UNIT as i128);
            to_i64(c)
        },
        None => {
            proof {
                lemma_huge_ratio_overflows(worst as int * mark as int);
            }
            Err(ErrorCode::Overflow)
        },
    }
}

/// New running account value after one position; see `spec_calc_acc_val`.
pub fn calc_acc_val(
    collateral: i64,
    smol_mark_price: i64,
    pos_size: i64,
    native_pc_total: i64,
    realized_pnl: i64,
    current_funding_index: i128,
    market_funding_index: i128,
    coin_decimals: u32,
) -> (r: Result<i64, ErrorCode>)
    requires
        coin_decimals <= 18,
    ensures
        res_matches(
            r,
            spec_calc_acc_val(
                collateral as int,
                smol_mark_price as int,
                pos_size as int,
                native_pc_total as int,
                realized_pnl as int,
                current_funding_index as int,
                market_funding_index as int,
                coin_decimals as nat,
            ),
        ),
{
    if pos_size == 0 {
        return safe_add_i64(collateral, realized_pnl);
    }
    let fd = match market_funding_index.checked_sub(current_funding_index) {
        Some(x) => x,
        None => {
            return Err(ErrorCode::Overflow);
        },
    };
    if fd == i128::MIN {
        return Err(ErrorCode::Overflow);
    }
    let nfd = -fd;
    let prod = match (pos_size as i128).checked_mul(nfd) {
        Some(p) => p,
        None => {
            return Err(ErrorCode::Overflow);
        },
    };
    let denom = pow10_i64(coin_decimals);
    proof {
        lemma_pow10_pos(coin_decimals as nat);
    }
    let uf = match to_i64(floor_div_i128(prod, denom as i128)) {
        Ok(v) => v,
        Err(e) => {
            return Err(e);
        },
    };
    let upnl = if pos_size > 0 {
        let pos = match mul_unit_floor(pos_size, smol_mark_price) {
            Ok(v) => v,
            Err(e) => {
                return Err(e);
            },
        };
        if native_pc_total == i64::MIN {
            return Err(ErrorCode::Overflow);
        }
        let bor = -native_pc_total;
        match pos.checked_sub(bor) {
            Some(v) => v,
            None => {
                return Err(ErrorCode::Overflow);
            },
        }
    } else {
        proof {
            lemma_mul_fits_i128(
                -(pos_size as int),
                smol_mark_price as int,
                0x8000_0000_0000_0000,
                0x8000_0000_0000_0000,
            );
        }
        let nps = -(pos_size as i128);
        let bor = match to_i64(floor_div_i128(nps * (smol_mark_price as i128), UNIT as i128)) {
            Ok(v) => v,
            Err(e) => {
                return Err(e);
            },
        };
        match native_pc_total.checked_sub(bor) {
            Some(v) => v,
            None => {
                return Err(ErrorCode::Overflow);
            },
        }
    };
    let s1 = match collateral.checked_add(realized_pnl) {
        Some(v) => v,
        None => {
            return Err(ErrorCode::Overflow);
        },
    };
    let s2 = match s1.checked_add(upnl) {
        Some(v) => v,
        None => {
            return Err(ErrorCode::Overflow);
        },
    };
    match s2.checked_add(uf) {
        Some(v) => Ok(v),
        None => Err(ErrorCode::Overflow),
    }
}

/// Walks an account's open positions in ascending market order, threading
/// the running account value through the loop and collecting margin factors
/// and notionals; see `spec_perp_fold`.
pub fn get_perp_acc_params(
    col: i64,
    return_option: MfReturnOption,
    max_markets: usize,
    open_orders_agg: &Vec<Position>,
    marks: &Vec<i64>,
    perp_markets: &Vec<PerpMarketConfig>,
    funding_cache: &Vec<i128>,
) -> (r: Result<PerpAccParams, ErrorCode>)
    requires
        max_markets <= open_orders_agg@.len(),
        max_markets <= marks@.len(),
        max_markets <= perp_markets@.len(),
        max_markets <= funding_cache@.len(),
        forall|i: int| 0 <= i < max_markets ==> (#[trigger] perp_markets@[i]).asset_decimals <= 18,
    ensures
        match r {
            Ok(p) => spec_perp_fold(
                col as int,
                return_option,
                max_markets as nat,
                open_orders_agg@,
                marks@,
                perp_markets@,
                funding_cache@,
            ) == Ok::<PerpAccState, ErrorCode>(p@),
            Err(e) => spec_perp_fold(
                col as int,
                return_option,
                max_markets as nat,
                open_orders_agg@,
                marks@,
                perp_markets@,
                funding_cache@,
            ) == Err::<PerpAccState, ErrorCode>(e),
        },
{
    let mut acc = PerpAccParams {
        total_acc_value: col,
        has_open_pos_notional: false,
        total_realized_pnl: 0,
        pimf_vec: Vec::new(),
        pmmf_vec: Vec::new(),
        pcmf_vec: Vec::new(),
        pos_open_notional_vec: Vec::new(),
        pos_notional_vec: Vec::new(),
    };
    proof {
        assert(seq_i64_to_int(acc.pimf_vec@) =~= Seq::<int>::empty());
        assert(seq_i64_to_int(acc.pmmf_vec@) =~= Seq::<int>::empty());
        assert(seq_i64_to_int(acc.pcmf_vec@) =~= Seq::<int>::empty());
        assert(seq_i64_to_int(acc.pos_open_notional_vec@) =~= Seq::<int>::empty());
        assert(seq_i64_to_int(acc.pos_notional_vec@) =~= Seq::<int>::empty());
        assert(acc@ == spec_perp_init(col as int));
    }
    let mut index: usize = 0;
    while index < max_markets
        invariant
            index <= max_markets,
            max_markets <= open_orders_agg@.len(),
            max_markets <= marks@.len(),
            max_markets <= perp_markets@.len(),
            max_markets <= funding_cache@.len(),
            forall|i: int|
                0 <= i < max_markets ==> (#[trigger] perp_markets@[i]).asset_decimals <= 18,
            spec_perp_fold(
                col as int,
                return_option,
                index as nat,
                open_orders_agg@,
                marks@,
                perp_markets@,
                funding_cache@,
            ) == Ok::<PerpAccState, ErrorCode>(acc@),
        decreases max_markets - index,
    {
        let ghost prev = acc@;
        let ghost imf0 = acc.pimf_vec@;
        let ghost mmf0 = acc.pmmf_vec@;
        let ghost cmf0 = acc.pcmf_vec@;
        let ghost open0 = acc.pos_open_notional_vec@;
        let ghost not0 = acc.pos_notional_vec@;
        let oo_info = &open_orders_agg[index];
        if !oo_info.key.is_empty() {
            let mark = marks[index];
            let new_acc_val = match calc_acc_val(
                acc.total_acc_value,
                mark,
                oo_info.pos_size,
                oo_info.native_pc_total,
                oo_info.realized_pnl,
                oo_info.funding_index,
                funding_cache[index],
                perp_markets[index].asset_decimals,
            ) {
                Ok(v) => v,
                Err(e) => {
                    proof {
                        lemma_perp_fold_err(
                            col as int,
                            return_option,
                            (index + 1) as nat,
                            max_markets as nat,
                            open_orders_agg@,
                            marks@,
                            perp_markets@,
                            funding_cache@,
                        );
                    }
                    return Err(e);
                },
            };
            let pn = match position_notional(oo_info.pos_size, mark) {
                Ok(v) => v,
                Err(e) => {
                    proof {
                        lemma_perp_fold_err(
                            col as int,
                            return_option,
                            (index + 1) as nat,
                            max_markets as nat,
                            open_orders_agg@,
                            marks@,
                            perp_markets@,
                            funding_cache@,
                        );
                    }
                    return Err(e);
                },
            };
            let opn = match open_notional(
                oo_info.pos_size,
                oo_info.coin_on_bids,
                oo_info.coin_on_asks,
                mark,
            ) {
                Ok(v) => v,
                Err(e) => {
                    proof {
                        lemma_perp_fold_err(
                            col as int,
                            return_option,
                            (index + 1) as nat,
                            max_markets as nat,
                            open_orders_agg@,
                            marks@,
                            perp_markets@,
                            funding_cache@,
                        );
                    }
                    return Err(e);
                },
            };
            let trp = match safe_add_i64(acc.total_realized_pnl, oo_info.realized_pnl) {
                Ok(v) => v,
                Err(e) => {
                    proof {
                        lemma_perp_fold_err(
                            col as int,
                            return_option,
                            (index + 1) as nat,
                            max_markets as nat,
                            open_orders_agg@,
                            marks@,
                            perp_markets@,
                            funding_cache@,
                        );
                    }
                    return Err(e);
                },
            };
            let base_imf = perp_markets[index].base_imf;
            match return_option {
                MfReturnOption::Mmf => {
                    acc.pmmf_vec.push((base_imf / 2) as i64);
                },
                MfReturnOption::Imf => {
                    acc.pimf_vec.push(base_imf as i64);
                },
                MfReturnOption::Cancel => {
                    acc.pcmf_vec.push((base_imf as u32 * 5 / 8) as i64);
                },
                MfReturnOption::Both => {
                    acc.pimf_vec.push(base_imf as i64);
                    acc.pmmf_vec.push((base_imf / 2) as i64);
                },
            }
            acc.pos_open_notional_vec.push(opn);
            acc.pos_notional_vec.push(pn);
            acc.total_acc_value = new_acc_val;
            if opn > 0 {
                acc.has_open_pos_notional = true;
            }
            acc.total_realized_pnl = trp;
            proof {
                if return_option == MfReturnOption::Imf || return_option == MfReturnOption::Both {
                    lemma_seq_i64_to_int_push(imf0, base_imf as i64);
                }
                if return_option == MfReturnOption::Mmf || return_option == MfReturnOption::Both {
                    lemma_seq_i64_to_int_push(mmf0, (base_imf / 2) as i64);
                }
                if return_option == MfReturnOption::Cancel {
                    lemma_seq_i64_to_int_push(cmf0, (base_imf as u32 * 5 / 8) as i64);
                }
                lemma_seq_i64_to_int_push(open0, opn);
                lemma_seq_i64_to_int_push(not0, pn);
                assert(spec_perp_fold(
                    col as int,
                    return_option,
                    (index + 1) as nat,
                    open_orders_agg@,
                    marks@,
                    perp_markets@,
                    funding_cache@,
                ) == Ok::<PerpAccState, ErrorCode>(acc@));
            }
        } else {
            proof {
                assert(spec_perp_fold(
                    col as int,
                    return_option,
                    (index + 1) as nat,
                    open_orders_agg@,
                    marks@,
                    perp_markets@,
                    funding_cache@,
                ) == Ok::<PerpAccState, ErrorCode>(acc@));
            }
        }
        index = index + 1;
    }
    Ok(acc)
}

} // verus!
