use vstd::prelude::*;

verus! {

use vstd::arithmetic::div_mod::*;
use crate::error::ErrorCode;

/// Scale of every fixed-point quantity in the engine: one whole unit is
/// `UNIT` micro-units. Prices are micro-quote-units per smallest asset unit,
/// and accrual multipliers are micro-scaled (`UNIT` means a factor of one).
pub const UNIT: i64 = 1_000_000;

/// Permille scale used for collateral weights and margin factors.
pub const PERMILLE: i64 = 1_000;

pub open spec fn in_i64(x: int) -> bool {
    i64::MIN <= x <= i64::MAX
}

pub open spec fn in_i128(x: int) -> bool {
    i128::MIN <= x <= i128::MAX
}

/// `x` itself when it fits a 64-bit signed integer, `Overflow` otherwise:
/// the checked-arithmetic guard every 64-bit step of the engine goes through.
pub open spec fn guard_i64(x: int) -> Result<int, ErrorCode> {
    if in_i64(x) {
        Ok(x)
    } else {
        Err(ErrorCode::Overflow)
    }
}

/// Quotient of `a` by `d` rounded toward negative infinity. For `d > 0`
/// Euclidean division already rounds this way.
pub open spec fn floor_div(a: int, d: int) -> int {
    a / d
}

/// Quotient of `a` by `d` rounded toward positive infinity.
pub open spec fn ceil_div(a: int, d: int) -> int {
    -((-a) / d)
}

/// An executable 64-bit result agrees with a mathematical one: same value on
/// success, same error on failure.
pub open spec fn res_matches(r: Result<i64, ErrorCode>, s: Result<int, ErrorCode>) -> bool {
    match r {
        Ok(v) => s == Ok::<int, ErrorCode>(v as int),
        Err(e) => s == Err::<int, ErrorCode>(e),
    }
}

/// The floor quotient lies within `d` of the dividend's scaled value.
pub proof fn lemma_floor_div_bounds(a: int, d: int)
    requires
        d > 0,
    ensures
        d * floor_div(a, d) <= a < d * (floor_div(a, d) + 1),
{
    lemma_fundamental_div_mod(a, d);
    lemma_mod_bound(a, d);
    assert(d * (floor_div(a, d) + 1) == d * floor_div(a, d) + d) by (nonlinear_arith);
}

/// The ceiling quotient lies within `d` of the dividend's scaled value.
pub proof fn lemma_ceil_div_bounds(a: int, d: int)
    requires
        d > 0,
    ensures
        d * (ceil_div(a, d) - 1) < a <= d * ceil_div(a, d),
{
    lemma_floor_div_bounds(-a, d);
    let f = floor_div(-a, d);
    assert(d * (-f) == -(d * f)) by (nonlinear_arith);
    assert(d * (-f - 1) == -(d * (f + 1))) by (nonlinear_arith);
}

/// Floor division by a positive divisor is monotone in the dividend.
pub proof fn lemma_floor_div_mono(a: int, b: int, d: int)
    requires
        a <= b,
        d > 0,
    ensures
        floor_div(a, d) <= floor_div(b, d),
{
    lemma_div_is_ordered(a, b, d);
}

/// A quotient never exceeds its dividend in magnitude, for either rounding.
pub proof fn lemma_div_stays_in_range(a: int, d: int)
    requires
        d > 0,
    ensures
        a >= 0 ==> 0 <= floor_div(a, d) <= a && 0 <= ceil_div(a, d) <= a,
        a < 0 ==> a <= floor_div(a, d) <= 0 && a <= ceil_div(a, d) <= 0,
{
    lemma_floor_div_bounds(a, d);
    let f = floor_div(a, d);
    if a >= 0 {
        assert(f >= 0) by {
            if f < 0 {
                assert(d * f <= f) by (nonlinear_arith)
                    requires
                        d >= 1 && f < 0,
                ;
            }
        }
        assert(f <= a) by {
            if f > a {
                assert(d * f >= f) by (nonlinear_arith)
                    requires
                        d >= 1 && f >= 0,
                ;
            }
        }
    } else {
        assert(f <= 0) by {
            if f > 0 {
                assert(d * f >= f) by (nonlinear_arith)
                    requires
                        d >= 1 && f > 0,
                ;
            }
        }
        assert(f >= a) by {
            if f + 1 <= 0 {
                assert(d * (f + 1) <= f + 1) by (nonlinear_arith)
                    requires
                        d >= 1 && f + 1 <= 0,
                ;
            }
        }
    }
    lemma_floor_div_bounds(-a, d);
    let g = floor_div(-a, d);
    if -a >= 0 {
        assert(g >= 0) by {
            if g < 0 {
                assert(d * g <= g) by (nonlinear_arith)
                    requires
                        d >= 1 && g < 0,
                ;
            }
        }
        assert(g <= -a) by {
            if g > -a {
                assert(d * g >= g) by (nonlinear_arith)
                    requires
                        d >= 1 && g >= 0,
                ;
            }
        }
    } else {
        assert(g <= 0) by {
            if g > 0 {
                assert(d * g >= g) by (nonlinear_arith)
                    requires
                        d >= 1 && g > 0,
                ;
            }
        }
        assert(g >= -a) by {
            if g + 1 <= 0 {
                assert(d * (g + 1) <= g + 1) by (nonlinear_arith)
                    requires
                        d >= 1 && g + 1 <= 0,
                ;
            }
        }
    }
}

/// A product of two values bounded in magnitude by `abound` and `bbound`
/// stays within the 128-bit signed range whenever the bound product does.
pub proof fn lemma_mul_fits_i128(a: int, b: int, abound: int, bbound: int)
    requires
        -abound <= a <= abound,
        -bbound <= b <= bbound,
        0 <= abound,
        0 <= bbound,
        abound * bbound <= i128::MAX,
    ensures
        in_i128(a * b),
{
    assert(-(abound * bbound) <= a * b <= abound * bbound) by (nonlinear_arith)
        requires
            -abound <= a <= abound && -bbound <= b <= bbound && 0 <= abound && 0 <= bbound,
    ;
}

/// Any product of two 64-bit signed values fits in 128 bits.
pub proof fn lemma_i64_mul_fits_i128(a: int, b: int)
    requires
        in_i64(a),
        in_i64(b),
    ensures
        in_i128(a * b),
{
    lemma_mul_fits_i128(a, b, 0x8000_0000_0000_0000, 0x8000_0000_0000_0000);
}

/// A product of a 64-bit signed and a 64-bit unsigned value fits in 128 bits.
pub proof fn lemma_i64_u64_mul_fits_i128(a: int, b: int)
    requires
        in_i64(a),
        0 <= b <= u64::MAX,
    ensures
        in_i128(a * b),
{
    lemma_mul_fits_i128(a, b, 0x8000_0000_0000_0000, 0xffff_ffff_ffff_ffff);
}

/// Quotient of `a` by a positive `d`, rounded toward negative infinity.
pub fn floor_div_i128(a: i128, d: i128) -> (r: i128)
    requires
        d > 0,
    ensures
        r == floor_div(a as int, d as int),
{
    let ghost ai = a as int;
    let ghost di = d as int;
    proof {
        lemma_div_stays_in_range(ai, di);
        lemma_div_stays_in_range(-ai, di);
    }
    let q = (match a.checked_div(d) {
        Some(v) => v,
        None => {
            proof {
                assert(false);
            }
            0
        }
    });
    proof {
        if ai >= 0 {
            assert(q == ai / di);
            lemma_fundamental_div_mod(ai, di);
            lemma_mod_bound(ai, di);
        } else {
            assert(ai * -1 == -ai) by (nonlinear_arith);
            assert((-ai) / di * -1 == -((-ai) / di)) by (nonlinear_arith);
            assert(q == -((-ai) / di));
            lemma_fundamental_div_mod(-ai, di);
            lemma_mod_bound(-ai, di);
            assert(di * -((-ai) / di) == -(di * ((-ai) / di))) by (nonlinear_arith);
        }
    }
    let qd = q * d;
    let rem = a - qd;
    if a < 0 && rem != 0 {
        proof {
            let m = (-ai) / di;
            let s = (-ai) % di;
            // -a == d * m + s, so a == d * (-m - 1) + (d - s) with 0 < d - s < d.
            assert(s != 0);
            assert(ai == (-m - 1) * di + (di - s)) by (nonlinear_arith)
                requires
                    -ai == di * m + s,
            ;
            lemma_fundamental_div_mod_converse(ai, di, -m - 1, di - s);
        }
        q - 1
    } else {
        proof {
            if ai < 0 {
                let m = (-ai) / di;
                let s = (-ai) % di;
                assert(s == 0);
                assert(ai == (-m) * di + 0) by (nonlinear_arith)
                    requires
                        -ai == di * m + s && s == 0,
                ;
                lemma_fundamental_div_mod_converse(ai, di, -m, 0);
            }
        }
        q
    }
}

/// Quotient of `a` by a positive `d`, rounded toward positive infinity.
pub fn ceil_div_i128(a: i128, d: i128) -> (r: i128)
    requires
        d > 0,
    ensures
        r == ceil_div(a as int, d as int),
{
    let ghost ai = a as int;
    let ghost di = d as int;
    proof {
        lemma_div_stays_in_range(ai, di);
        lemma_div_stays_in_range(-ai, di);
    }
    let q = (match a.checked_div(d) {
        Some(v) => v,
        None => {
            proof {
                assert(false);
            }
            0
        }
    });
    proof {
        if ai >= 0 {
            assert(q == ai / di);
            lemma_fundamental_div_mod(ai, di);
            lemma_mod_bound(ai, di);
        } else {
            assert(ai * -1 == -ai) by (nonlinear_arith);
            assert((-ai) / di * -1 == -((-ai) / di)) by (nonlinear_arith);
            assert(q == -((-ai) / di));
            lemma_fundamental_div_mod(-ai, di);
            lemma_mod_bound(-ai, di);
            assert(di * -((-ai) / di) == -(di * ((-ai) / di))) by (nonlinear_arith);
        }
    }
    let qd = q * d;
    let rem = a - qd;
    if a > 0 && rem != 0 {
        proof {
            let m = ai / di;
            let s = ai % di;
            assert(s != 0);
            // a == d * m + s, so -a == d * (-m - 1) + (d - s) with 0 < d - s < d.
            assert(-ai == (-m - 1) * di + (di - s)) by (nonlinear_arith)
                requires
                    ai == di * m + s,
            ;
            lemma_fundamental_div_mod_converse(-ai, di, -m - 1, di - s);
        }
        q + 1
    } else {
        proof {
            if ai > 0 {
                let m = ai / di;
                let s = ai % di;
                assert(s == 0);
                assert(-ai == (-m) * di + 0) by (nonlinear_arith)
                    requires
                        ai == di * m + s && s == 0,
                ;
                lemma_fundamental_div_mod_converse(-ai, di, -m, 0);
            } else if ai == 0 {
                lemma_fundamental_div_mod_converse(0, di, 0, 0);
            }
        }
        q
    }
}

/// Narrows a 128-bit value to 64 bits, failing with `Overflow` when it does
/// not fit.
pub fn to_i64(x: i128) -> (r: Result<i64, ErrorCode>)
    ensures
        res_matches(r, guard_i64(x as int)),
{
    if x < i64::MIN as i128 || x > i64::MAX as i128 {
        Err(ErrorCode::Overflow)
    } else {
        Ok(x as i64)
    }
}

/// Checked 64-bit addition: fails with `Overflow` instead of wrapping.
pub fn safe_add_i64(a: i64, b: i64) -> (r: Result<i64, ErrorCode>)
    ensures
        res_matches(r, guard_i64(a + b)),
{
    match a.checked_add(b) {
        Some(v) => Ok(v),
        None => Err(ErrorCode::Overflow),
    }
}

/// Checked 64-bit subtraction: fails with `Overflow` instead of wrapping.
pub fn safe_sub_i64(a: i64, b: i64) -> (r: Result<i64, ErrorCode>)
    ensures
        res_matches(r, guard_i64(a - b)),
{
    match a.checked_sub(b) {
        Some(v) => Ok(v),
        None => Err(ErrorCode::Overflow),
    }
}

/// Checked 64-bit multiplication: fails with `Overflow` instead of wrapping.
pub fn safe_mul_i64(a: i64, b: i64) -> (r: Result<i64, ErrorCode>)
    ensures
        res_matches(r, guard_i64(a * b)),
{
    match a.checked_mul(b) {
        Some(v) => Ok(v),
        None => Err(ErrorCode::Overflow),
    }
}

/// Fixed-point multiply, rounded toward negative infinity: widens to 128
/// bits, rescales by `UNIT`, and fails rather than losing precision.
pub fn mul_unit_floor(q: i64, p: i64) -> (r: Result<i64, ErrorCode>)
    ensures
        res_matches(r, guard_i64(floor_div(q * p, UNIT as int))),
{
    proof {
        lemma_i64_mul_fits_i128(q as int, p as int);
    }
    let prod = (q as i128) * (p as i128);
    let f = floor_div_i128(prod, UNIT as i128);
    to_i64(f)
}

/// Fixed-point multiply, rounded toward positive infinity.
pub fn mul_unit_ceil(q: i64, p: i64) -> (r: Result<i64, ErrorCode>)
    ensures
        res_matches(r, guard_i64(ceil_div(q * p, UNIT as int))),
{
    proof {
        lemma_i64_mul_fits_i128(q as int, p as int);
    }
    let prod = (q as i128) * (p as i128);
    let f = ceil_div_i128(prod, UNIT as i128);
    to_i64(f)
}

/// Mathematical power of ten.
pub open spec fn pow10(n: nat) -> int
    decreases n,
{
    if n == 0 {
        1
    } else {
        10 * pow10((n - 1) as nat)
    }
}

pub proof fn lemma_pow10_pos(n: nat)
    ensures
        pow10(n) >= 1,
    decreases n,
{
    if n > 0 {
        lemma_pow10_pos((n - 1) as nat);
    }
}

pub proof fn lemma_pow10_mono(m: nat, n: nat)
    requires
        m <= n,
    ensures
        pow10(m) <= pow10(n),
    decreases n,
{
    if m < n {
        lemma_pow10_mono(m, (n - 1) as nat);
        lemma_pow10_pos((n - 1) as nat);
    }
}

pub proof fn lemma_pow10_18()
    ensures
        pow10(18) == 1_000_000_000_000_000_000,
{
    reveal_with_fuel(pow10, 19);
}

/// Ten to the power `d`, for exponents that fit a 64-bit value.
pub fn pow10_i64(d: u32) -> (r: i64)
    requires
        d <= 18,
    ensures
        r == pow10(d as nat),
{
    let mut p: i64 = 1;
    let mut k: u32 = 0;
    while k < d
        invariant
            k <= d,
            d <= 18,
            p == pow10(k as nat),
        decreases d - k,
    {
        proof {
            lemma_pow10_pos(k as nat);
            lemma_pow10_mono((k + 1) as nat, 18);
            lemma_pow10_18();
            assert(pow10((k + 1) as nat) == 10 * pow10(k as nat));
        }
        p = p * 10;
        k = k + 1;
    }
    p
}

/// The integer images of a sequence of 64-bit values.
pub open spec fn seq_i64_to_int(s: Seq<i64>) -> Seq<int> {
    s.map_values(|x: i64| x as int)
}

pub proof fn lemma_seq_i64_to_int_push(s: Seq<i64>, x: i64)
    ensures
        seq_i64_to_int(s.push(x)) == seq_i64_to_int(s).push(x as int),
{
    assert(seq_i64_to_int(s.push(x)) =~= seq_i64_to_int(s).push(x as int));
}

pub proof fn lemma_seq_i64_to_int_concat(a: Seq<i64>, b: Seq<i64>)
    ensures
        seq_i64_to_int(a + b) == seq_i64_to_int(a) + seq_i64_to_int(b),
{
    assert(seq_i64_to_int(a + b) =~= seq_i64_to_int(a) + seq_i64_to_int(b));
}

/// A 128-bit overflow can never rescale back into the 64-bit range: when a
/// product leaves the 128-bit range, its quotient by `UNIT` is out of the
/// 64-bit range under either rounding.
pub proof fn lemma_huge_ratio_overflows(a: int)
    requires
        !in_i128(a),
    ensures
        !in_i64(floor_div(a, UNIT as int)),
        !in_i64(ceil_div(a, UNIT as int)),
{
    let d = UNIT as int;
    lemma_floor_div_bounds(a, d);
    lemma_ceil_div_bounds(a, d);
    let f = floor_div(a, d);
    let c = ceil_div(a, d);
    if a > i128::MAX {
        assert(f > i64::MAX) by {
            if f <= i64::MAX {
                assert(d * (f + 1) <= d * (i64::MAX + 1)) by (nonlinear_arith)
                    requires
                        d > 0 && f + 1 <= i64::MAX + 1,
                ;
            }
        }
        assert(c > i64::MAX) by {
            if c <= i64::MAX {
                assert(d * c <= d * i64::MAX) by (nonlinear_arith)
                    requires
                        d > 0 && c <= i64::MAX,
                ;
            }
        }
    } else {
        assert(f < i64::MIN) by {
            if f >= i64::MIN {
                assert(d * f >= d * i64::MIN) by (nonlinear_arith)
                    requires
                        d > 0 && f >= i64::MIN,
                ;
            }
        }
        assert(c < i64::MIN) by {
            if c >= i64::MIN {
                assert(d * (c - 1) >= d * (i64::MIN - 1)) by (nonlinear_arith)
                    requires
                        d > 0 && c - 1 >= i64::MIN - 1,
                ;
            }
        }
    }
}

/// Appends a copy of every element of `src` to `dst`.
pub fn append_copy(dst: &mut Vec<i64>, src: &Vec<i64>)
    ensures
        final(dst)@ == old(dst)@ + src@,
{
    let mut i: usize = 0;
    while i < src.len()
        invariant
            i <= src@.len(),
            dst@ == old(dst)@ + src@.take(i as int),
        decreases src@.len() - i,
    {
        dst.push(src[i]);
        proof {
            assert(old(dst)@ + src@.take(i + 1) =~= (old(dst)@ + src@.take(i as int)).push(
                src@[i as int],
            ));
        }
        i = i + 1;
    }
    proof {
        assert(src@.take(src@.len() as int) =~= src@);
    }
}

} // verus!
