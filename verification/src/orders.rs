use vstd::prelude::*;

verus! {

use crate::data::{Cache, Control, Position};
use crate::error::ErrorCode;
use crate::math::lemma_mul_fits_i128;

/// Resting-order exposure of a market: the larger resting-order side times
/// the mark price. Compared exactly, without rescaling, so no rounding is
/// involved.
pub open spec fn spec_order_exposure(p: Position, mark: i64) -> int {
    (if p.coin_on_asks >= p.coin_on_bids {
        p.coin_on_asks as int
    } else {
        p.coin_on_bids as int
    }) * (mark as int)
}

/// Index and value of the maximum resting-order exposure among the first `n`
/// markets; ties go to the larger index.
pub open spec fn spec_best_order(oo: Seq<Position>, marks: Seq<i64>, n: nat) -> (int, int)
    decreases n,
{
    if n <= 1 {
        (0, spec_order_exposure(oo[0], marks[0]))
    } else {
        let (bi, bv) = spec_best_order(oo, marks, (n - 1) as nat);
        let v = spec_order_exposure(oo[n - 1], marks[n - 1]);
        if v >= bv {
            (n - 1, v)
        } else {
            (bi, bv)
        }
    }
}

/// The selected market carries the maximum exposure, and every later market
/// is strictly below it.
pub proof fn lemma_best_order_props(oo: Seq<Position>, marks: Seq<i64>, n: nat)
    requires
        1 <= n <= oo.len(),
        n <= marks.len(),
    ensures
        ({
            let (bi, bv) = spec_best_order(oo, marks, n);
            &&& 0 <= bi < n
            &&& bv == spec_order_exposure(oo[bi], marks[bi])
            &&& forall|j: int| 0 <= j < n ==> #[trigger] spec_order_exposure(oo[j], marks[j]) <= bv
            &&& forall|j: int| bi < j < n ==> #[trigger] spec_order_exposure(oo[j], marks[j]) < bv
        }),
    decreases n,
{
    if n > 1 {
        lemma_best_order_props(oo, marks, (n - 1) as nat);
    }
}

fn order_exposure(p: &Position, mark: i64) -> (r: i128)
    ensures
        r as int == spec_order_exposure(*p, mark),
{
    let m = if p.coin_on_asks >= p.coin_on_bids {
        p.coin_on_asks
    } else {
        p.coin_on_bids
    };
    proof {
        lemma_mul_fits_i128(
            m as int,
            mark as int,
            0xffff_ffff_ffff_ffff,
            0x8000_0000_0000_0000,
        );
    }
    (m as i128) * (mark as i128)
}

/// Market with the largest resting-order exposure `max(bids, asks) * mark`.
/// An account with no markets at all is an error (`NoPositions`); an account
/// whose maximum exposure is exactly zero has no significant open order and
/// yields `None` — a valid result, not an error. Ties go to the larger
/// market index.
pub fn largest_open_order(cache: &Cache, control: &Control) -> (r: Result<Option<usize>, ErrorCode>)
    requires
        control.open_orders_agg@.len() <= cache.marks@.len(),
    ensures
        match r {
            Err(e) => e == ErrorCode::NoPositions && control.open_orders_agg@.len() == 0,
            Ok(opt) => control.open_orders_agg@.len() > 0 && ({
                let (bi, bv) = spec_best_order(
                    control.open_orders_agg@,
                    cache.marks@,
                    control.open_orders_agg@.len() as nat,
                );
                match opt {
                    None => bv == 0,
                    Some(i) => i as int == bi && bv != 0,
                }
            }),
        },
{
    let n = control.open_orders_agg.len();
    if n == 0 {
        return Err(ErrorCode::NoPositions);
    }
    let mut best_i: usize = 0;
    let mut best_v: i128 = order_exposure(&control.open_orders_agg[0], cache.marks[0]);
    let mut i: usize = 1;
    while i < n
        invariant
            1 <= i <= n,
            n == control.open_orders_agg@.len(),
            n <= cache.marks@.len(),
            (best_i as int, best_v as int) == spec_best_order(
                control.open_orders_agg@,
                cache.marks@,
                i as nat,
            ),
        decreases n - i,
    {
        let v = order_exposure(&control.open_orders_agg[i], cache.marks[i]);
        if v >= best_v {
            best_i = i;
            best_v = v;
        }
        i = i + 1;
    }
    if best_v == 0 {
        Ok(None)
    } else {
        Ok(Some(best_i))
    }
}

/// Whether the account has any market with a nonzero resting-order
/// exposure.
pub fn has_open_orders(cache: &Cache, control: &Control) -> (r: Result<bool, ErrorCode>)
    requires
        control.open_orders_agg@.len() <= cache.marks@.len(),
    ensures
        match r {
            Err(e) => e == ErrorCode::NoPositions && control.open_orders_agg@.len() == 0,
            Ok(b) => control.open_orders_agg@.len() > 0 && b == (spec_best_order(
                control.open_orders_agg@,
                cache.marks@,
                control.open_orders_agg@.len() as nat,
            ).1 != 0),
        },
{
    match largest_open_order(cache, control) {
        Ok(opt) => Ok(opt.is_some()),
        Err(e) => Err(e),
    }
}

} // verus!
