//! Fixed-point formulas of the game: lending APY and interest, deck power and
//! bonus, liquidation prices and basis-point shares.
use vstd::prelude::*;

verus! {

/// Fixed-point scale (six decimals).
pub const SCALE: u64 = 1_000_000;

/// Lowest APY, in `SCALE` units.
pub const APY_MIN: u64 = 0;

/// Highest APY (30%), in `SCALE` units.
pub const APY_MAX: u64 = 300_000;

/// Reserve horizon of a loan (half a year), in `SCALE` units of years.
pub const T_MAX_FP: u64 = 500_000;

pub const SECONDS_PER_YEAR: u64 = 31_536_000;

/// Shortest average loan time the APY formula assumes (one hour).
pub const T_FLOOR_SECONDS: u64 = 3_600;

/// Basis points in one whole.
pub const BPS: u32 = 10_000;

pub open spec fn min_int(a: int, b: int) -> int {
    if a <= b { a } else { b }
}

pub open spec fn max_int(a: int, b: int) -> int {
    if a >= b { a } else { b }
}

/// `a * b`, capped at `u64::MAX`.
pub open spec fn sat_mul_u64_spec(a: int, b: int) -> int {
    min_int(a * b, u64::MAX as int)
}

/// `a + b`, capped at `u64::MAX`.
pub open spec fn sat_add_u64_spec(a: int, b: int) -> int {
    min_int(a + b, u64::MAX as int)
}

/// `a - b`, floored at zero.
pub open spec fn sat_sub_spec(a: int, b: int) -> int {
    max_int(a - b, 0)
}

/// Multiplication of two `u64` that stops at `u64::MAX` instead of overflowing.
pub fn sat_mul_u64(a: u64, b: u64) -> (r: u64)
    ensures
        r == sat_mul_u64_spec(a as int, b as int),
{
    match a.checked_mul(b) {
        Some(v) => v,
        None => u64::MAX,
    }
}

/// Multiplication of two `u32` that stops at `u32::MAX` instead of overflowing.
pub fn sat_mul_u32(a: u32, b: u32) -> (r: u32)
    ensures
        r == min_int(a * b, u32::MAX as int),
{
    match a.checked_mul(b) {
        Some(v) => v,
        None => u32::MAX,
    }
}

/// Utilization of the pool, `B / (B + S + 1)`, in `SCALE` units.
pub open spec fn utilization_spec(total_borrowed_power: u64, total_offer: u64) -> int {
    min_int(
        (total_borrowed_power * SCALE) / (total_borrowed_power + total_offer + 1),
        SCALE as int,
    )
}

/// Average loan time in years (`SCALE` units), at least one hour.
pub open spec fn loan_years_spec(loans_time_seconds: u64, active_loans: u64) -> int {
    let n: int = max_int(active_loans as int, 1);
    let avg: int = loans_time_seconds as int / n;
    let t: int = max_int(avg, T_FLOOR_SECONDS as int);
    (t * SCALE) / (SECONDS_PER_YEAR as int)
}

/// `1 / (1 + alpha * T)`, in `SCALE` units.
pub open spec fn time_factor_spec(alpha: u64, t_years_fp: int) -> int {
    let one: int = SCALE as int;
    (one * one) / (one + (alpha * t_years_fp) / one)
}

/// The pool's APY: `APY_min + (APY_max - APY_min) * U / (1 + alpha * T)`, capped at
/// `APY_max`, with every step rounded down in `SCALE` units.
pub open spec fn apy_spec(
    total_borrowed_power: u64,
    total_offer: u64,
    loans_time_seconds: u64,
    active_loans: u64,
    alpha: u64,
) -> int {
    let one: int = SCALE as int;
    let u: int = utilization_spec(total_borrowed_power, total_offer);
    let tf: int = time_factor_spec(alpha, loan_years_spec(loans_time_seconds, active_loans));
    let mul: int = (u * tf) / one;
    min_int(APY_MIN + ((APY_MAX - APY_MIN) * mul) / one, APY_MAX as int)
}

proof fn lemma_mul_le(a: int, b: int, c: int, d: int)
    requires
        0 <= a <= c,
        0 <= b <= d,
    ensures
        0 <= a * b <= c * d,
{
    assert(0 <= a * b <= c * d) by (nonlinear_arith)
        requires
            0 <= a <= c,
            0 <= b <= d,
    ;
}

proof fn lemma_div_le_num(a: int, d: int)
    requires
        0 <= a,
        1 <= d,
    ensures
        0 <= a / d <= a,
{
    assert(0 <= a / d <= a) by (nonlinear_arith)
        requires
            0 <= a,
            1 <= d,
    ;
}

proof fn lemma_div_bound(a: int, b: int, d: int)
    requires
        0 <= a <= b,
        1 <= d,
    ensures
        0 <= a / d <= b / d,
{
    assert(0 <= a / d <= b / d) by (nonlinear_arith)
        requires
            0 <= a <= b,
            1 <= d,
    ;
}

/// Bounds of the pool's APY.
pub proof fn lemma_apy_bounds(b: u64, s: u64, lt: u64, n: u64, alpha: u64)
    ensures
        0 <= apy_spec(b, s, lt, n, alpha) <= APY_MAX,
{
    let one: int = SCALE as int;
    let u = utilization_spec(b, s);
    lemma_mul_le(b as int, one, b as int, one);
    lemma_div_le_num(b * one, b + s + 1);
    let ty = loan_years_spec(lt, n);
    let nn: int = max_int(n as int, 1);
    lemma_div_le_num(lt as int, nn);
    let t: int = max_int(lt as int / nn, T_FLOOR_SECONDS as int);
    lemma_mul_le(t, one, t, one);
    lemma_div_le_num(t * one, SECONDS_PER_YEAR as int);
    lemma_mul_le(alpha as int, ty, alpha as int, ty);
    lemma_div_le_num(alpha * ty, one);
    let td = one + (alpha * ty) / one;
    let tf = time_factor_spec(alpha, ty);
    lemma_div_bound(one * one, one * one, td);
    assert(tf <= one) by (nonlinear_arith)
        requires
            tf == (one * one) / td,
            td >= one,
            one > 0,
    ;
    lemma_mul_le(u, tf, one, one);
    lemma_div_le_num(u * tf, one);
    let mul = (u * tf) / one;
    lemma_mul_le((APY_MAX - APY_MIN) as int, mul, (APY_MAX - APY_MIN) as int, mul);
    lemma_div_le_num((APY_MAX - APY_MIN) * mul, one);
}

/// The pool's APY in `SCALE` units (see `apy_spec`).
pub fn calculate_apy(
    total_borrowed_power: u64,
    total_offer: u64,
    loans_time_seconds: u64,
    active_loans: u64,
    alpha: u64,
) -> (r: u64)
    ensures
        r == apy_spec(total_borrowed_power, total_offer, loans_time_seconds, active_loans, alpha),
        r <= APY_MAX,
{
    proof {
        lemma_apy_bounds(total_borrowed_power, total_offer, loans_time_seconds, active_loans, alpha);
    }
    let scale: u128 = SCALE as u128;
    let b: u128 = total_borrowed_power as u128;
    let denom: u128 = b + (total_offer as u128) + 1;
    proof {
        lemma_mul_le(b as int, scale as int, u64::MAX as int, scale as int);
    }
    let mut u_fp: u128 = (b * scale) / denom;
    if u_fp > scale {
        u_fp = scale;
    }
    let n: u64 = if active_loans > 1 { active_loans } else { 1 };
    let avg_seconds: u64 = loans_time_seconds / n;
    let t_seconds: u64 = if avg_seconds > T_FLOOR_SECONDS { avg_seconds } else { T_FLOOR_SECONDS };
    proof {
        lemma_mul_le(t_seconds as int, scale as int, u64::MAX as int, scale as int);
    }
    let t_years_fp: u128 = ((t_seconds as u128) * scale) / (SECONDS_PER_YEAR as u128);
    proof {
        lemma_mul_le(t_seconds as int, scale as int, t_seconds as int, SECONDS_PER_YEAR as int);
        lemma_div_bound(
            t_seconds * scale,
            t_seconds * SECONDS_PER_YEAR,
            SECONDS_PER_YEAR as int,
        );
        assert((t_seconds * SECONDS_PER_YEAR) / (SECONDS_PER_YEAR as int) == t_seconds)
            by (nonlinear_arith);
        lemma_mul_le(alpha as int, t_years_fp as int, u64::MAX as int, u64::MAX as int);
    }
    let prod: u128 = (alpha as u128) * t_years_fp;
    proof {
        lemma_div_le_num(prod as int, scale as int);
    }
    let time_denom: u128 = scale + prod / scale;
    let time_factor: u128 = (scale * scale) / time_denom;
    proof {
        assert(time_factor <= scale) by (nonlinear_arith)
            requires
                time_factor as int == (scale as int * scale as int) / (time_denom as int),
                time_denom >= scale,
                scale > 0,
        ;
        lemma_mul_le(u_fp as int, time_factor as int, scale as int, scale as int);
    }
    let mul: u128 = (u_fp * time_factor) / scale;
    proof {
        lemma_div_le_num((u_fp * time_factor) as int, scale as int);
        lemma_mul_le((APY_MAX - APY_MIN) as int, mul as int, (APY_MAX - APY_MIN) as int, scale as int);
    }
    let apy_range: u128 = (APY_MAX - APY_MIN) as u128;
    let mut apy: u128 = (APY_MIN as u128) + (apy_range * mul) / scale;
    if apy > APY_MAX as u128 {
        apy = APY_MAX as u128;
    }
    apy as u64
}

/// A fraction with a larger cross product is no smaller, rounded down as well.
proof fn lemma_frac_le(x1: int, y1: int, x2: int, y2: int)
    requires
        0 <= x1,
        0 <= x2,
        0 < y1,
        0 < y2,
        x1 * y2 <= x2 * y1,
    ensures
        x1 / y1 <= x2 / y2,
{
    let q = x1 / y1;
    assert(q * y1 <= x1 && q >= 0) by (nonlinear_arith)
        requires
            x1 >= 0,
            y1 > 0,
            q == x1 / y1,
    ;
    assert(q * y2 <= x2) by (nonlinear_arith)
        requires
            q * y1 <= x1,
            x1 * y2 <= x2 * y1,
            y1 > 0,
            y2 > 0,
            q >= 0,
    ;
    assert(q <= x2 / y2) by (nonlinear_arith)
        requires
            q * y2 <= x2,
            y2 > 0,
            q >= 0,
    ;
}

/// The same amount over a larger denominator is no larger, rounded down.
proof fn lemma_div_antitone(x: int, y1: int, y2: int)
    requires
        0 <= x,
        0 < y1 <= y2,
    ensures
        0 <= x / y2 <= x / y1,
{
    assert(x * y1 <= x * y2) by (nonlinear_arith)
        requires
            0 <= x,
            0 < y1 <= y2,
    ;
    lemma_frac_le(x, y2, x, y1);
    lemma_div_le_num(x, y2);
}

/// The APY formula grows with the utilization and with the time factor.
proof fn lemma_apy_parts_mono(u1: int, u2: int, t1: int, t2: int)
    requires
        0 <= u1 <= u2,
        0 <= t1 <= t2,
    ensures
        min_int(APY_MIN + ((APY_MAX - APY_MIN) * ((u1 * t1) / (SCALE as int))) / (SCALE as int), APY_MAX as int)
            <= min_int(APY_MIN + ((APY_MAX - APY_MIN) * ((u2 * t2) / (SCALE as int))) / (SCALE as int), APY_MAX as int),
{
    let one: int = SCALE as int;
    lemma_mul_le(u1, t1, u2, t2);
    lemma_div_bound(u1 * t1, u2 * t2, one);
    let m1 = (u1 * t1) / one;
    let m2 = (u2 * t2) / one;
    lemma_mul_le((APY_MAX - APY_MIN) as int, m1, (APY_MAX - APY_MIN) as int, m2);
    lemma_div_bound((APY_MAX - APY_MIN) * m1, (APY_MAX - APY_MIN) * m2, one);
}

/// Utilization grows with what is borrowed and falls with what is offered.
proof fn lemma_utilization_mono(b: u64, s: u64, b2: u64, s2: u64)
    requires
        b <= b2,
        s <= s2,
    ensures
        0 <= utilization_spec(b, s),
        utilization_spec(b, s) <= utilization_spec(b2, s),
        utilization_spec(b, s2) <= utilization_spec(b, s),
        0 <= utilization_spec(b, s2),
{
    let one: int = SCALE as int;
    lemma_mul_le(b as int, one, b as int, one);
    lemma_mul_le(b2 as int, one, b2 as int, one);
    lemma_div_le_num(b * one, b + s + 1);
    lemma_div_le_num(b * one, b + s2 + 1);
    assert((b * one) * (b2 + s + 1) <= (b2 * one) * (b + s + 1)) by (nonlinear_arith)
        requires
            0 <= b <= b2,
            0 <= s,
            one > 0,
    ;
    lemma_frac_le(b * one, b + s + 1, b2 * one, b2 + s + 1);
    lemma_div_antitone(b * one, b + s + 1, b + s2 + 1);
}

/// The time factor falls as `alpha` or the average loan time grows.
proof fn lemma_time_factor_antitone(a: u64, t: int, a2: u64, t2: int)
    requires
        a <= a2,
        0 <= t <= t2,
    ensures
        0 <= time_factor_spec(a2, t2) <= time_factor_spec(a, t),
{
    let one: int = SCALE as int;
    lemma_mul_le(a as int, t, a2 as int, t2);
    lemma_div_bound(a * t, a2 * t2, one);
    lemma_div_antitone(one * one, one + (a * t) / one, one + (a2 * t2) / one);
}

/// Average loan time grows with the total time loans have run.
proof fn lemma_loan_years_mono(l: u64, l2: u64, n: u64)
    requires
        l <= l2,
    ensures
        0 <= loan_years_spec(l, n) <= loan_years_spec(l2, n),
{
    let m: int = max_int(n as int, 1);
    lemma_div_bound(l as int, l2 as int, m);
    let t1 = max_int(l as int / m, T_FLOOR_SECONDS as int);
    let t2 = max_int(l2 as int / m, T_FLOOR_SECONDS as int);
    lemma_mul_le(t1, SCALE as int, t2, SCALE as int);
    lemma_div_bound(t1 * (SCALE as int), t2 * (SCALE as int), SECONDS_PER_YEAR as int);
}

/// The pool's APY rises with borrowed power and falls as supply, the total loan time or
/// `alpha` grow.
pub proof fn law_apy_monotone(b: u64, s: u64, l: u64, n: u64, a: u64, b2: u64, s2: u64, l2: u64, a2: u64)
    requires
        b <= b2,
        s <= s2,
        l <= l2,
        a <= a2,
    ensures
        apy_spec(b, s, l, n, a) <= apy_spec(b2, s, l, n, a),
        apy_spec(b, s2, l, n, a) <= apy_spec(b, s, l, n, a),
        apy_spec(b, s, l2, n, a) <= apy_spec(b, s, l, n, a),
        apy_spec(b, s, l, n, a2) <= apy_spec(b, s, l, n, a),
{
    lemma_utilization_mono(b, s, b2, s2);
    lemma_utilization_mono(b2, s, b2, s);
    lemma_loan_years_mono(l, l2, n);
    lemma_loan_years_mono(l, l, n);
    let u = utilization_spec(b, s);
    let t = loan_years_spec(l, n);
    let tf = time_factor_spec(a, t);
    lemma_time_factor_antitone(a, t, a, t);
    lemma_time_factor_antitone(a, t, a, loan_years_spec(l2, n));
    lemma_time_factor_antitone(a, t, a2, t);
    lemma_apy_parts_mono(u, utilization_spec(b2, s), tf, tf);
    lemma_apy_parts_mono(utilization_spec(b, s2), u, tf, tf);
    lemma_apy_parts_mono(u, u, time_factor_spec(a, loan_years_spec(l2, n)), tf);
    lemma_apy_parts_mono(u, u, time_factor_spec(a2, t), tf);
}

/// Simple interest of `principal` at `apy` (`SCALE` units) over `duration_seconds`,
/// each product capped at `u64::MAX` and the result rounded down.
pub open spec fn interest_spec(principal: u64, apy: u64, duration_seconds: u64) -> int {
    sat_mul_u64_spec(sat_mul_u64_spec(principal as int, apy as int), duration_seconds as int)
        / (SECONDS_PER_YEAR as int) / (SCALE as int)
}

proof fn lemma_sat_mul_mono(a1: int, a2: int, b1: int, b2: int)
    requires
        0 <= a1 <= a2,
        0 <= b1 <= b2,
    ensures
        0 <= sat_mul_u64_spec(a1, b1) <= sat_mul_u64_spec(a2, b2),
{
    lemma_mul_le(a1, b1, a2, b2);
}

/// Interest is never more than the exact simple interest, equals its floor whenever
/// `principal * apy * duration` fits in 64 bits, is zero over no time, and grows with
/// each of its arguments.
pub proof fn law_interest_bounds(p: u64, a: u64, d: u64, p2: u64, a2: u64, d2: u64)
    ensures
        interest_spec(p, a, d) >= 0,
        interest_spec(p, a, d) * (SECONDS_PER_YEAR as int) * (SCALE as int) <= (p as int) * (a as int) * (d as int),
        (p as int) * (a as int) * (d as int) <= u64::MAX ==> interest_spec(p, a, d)
            == (p as int) * (a as int) * (d as int) / ((SECONDS_PER_YEAR as int) * (SCALE as int)),
        d == 0 ==> interest_spec(p, a, d) == 0,
        p <= p2 && a <= a2 && d <= d2 ==> interest_spec(p, a, d) <= interest_spec(p2, a2, d2),
{
    let y: int = SECONDS_PER_YEAR as int;
    let sc: int = SCALE as int;
    let pa: int = (p as int) * (a as int);
    let x: int = sat_mul_u64_spec(sat_mul_u64_spec(p as int, a as int), d as int);
    lemma_mul_le(p as int, a as int, p as int, a as int);
    let s1 = sat_mul_u64_spec(p as int, a as int);
    lemma_mul_le(s1, d as int, s1, d as int);
    assert(0 <= s1 <= pa);
    assert(s1 * (d as int) <= pa * (d as int)) by (nonlinear_arith)
        requires
            0 <= s1 <= pa,
            d >= 0,
    ;
    assert(0 <= x <= pa * (d as int));
    let q1: int = x / y;
    let q: int = q1 / sc;
    assert(q1 * y <= x && q1 >= 0) by (nonlinear_arith)
        requires
            x >= 0,
            y > 0,
            q1 == x / y,
    ;
    assert(q * sc <= q1 && q >= 0) by (nonlinear_arith)
        requires
            q1 >= 0,
            sc > 0,
            q == q1 / sc,
    ;
    assert(q * y * sc <= x) by (nonlinear_arith)
        requires
            q * sc <= q1,
            q1 * y <= x,
            y > 0,
            q >= 0,
    ;
    assert((p as int) * (a as int) * (d as int) == pa * (d as int));
    if pa * (d as int) <= u64::MAX {
        if d > 0 {
            assert(pa <= pa * (d as int)) by (nonlinear_arith)
                requires
                    pa >= 0,
                    d >= 1,
            ;
            assert(s1 == pa);
        } else {
            assert(s1 * (d as int) == 0) by (nonlinear_arith)
                requires
                    d == 0,
            ;
        }
        assert(x == pa * (d as int));
        vstd::arithmetic::div_mod::lemma_div_denominator(x, y, sc);
    }
    if d == 0 {
        assert(s1 * (d as int) == 0) by (nonlinear_arith)
            requires
                d == 0,
        ;
        assert(x == 0);
        assert(q1 == 0);
        assert(q == 0);
    }
    if p <= p2 && a <= a2 && d <= d2 {
        lemma_sat_mul_mono(p as int, p2 as int, a as int, a2 as int);
        lemma_sat_mul_mono(s1, sat_mul_u64_spec(p2 as int, a2 as int), d as int, d2 as int);
        let x2: int = sat_mul_u64_spec(sat_mul_u64_spec(p2 as int, a2 as int), d2 as int);
        lemma_div_bound(x, x2, y);
        lemma_div_bound(x / y, x2 / y, sc);
    }
}

/// Interest owed on `principal` (see `interest_spec`).
pub fn calculate_interest(principal: u64, apy: u64, duration_seconds: u64) -> (r: u64)
    ensures
        r == interest_spec(principal, apy, duration_seconds),
{
    let a: u64 = sat_mul_u64(principal, apy);
    let b: u64 = sat_mul_u64(a, duration_seconds);
    b / SECONDS_PER_YEAR / SCALE
}

/// Power of a deck once its bonus percentage is applied, truncated to 32 bits.
pub open spec fn effective_power_spec(base_power: u32, deck_bonus: u32) -> u32 {
    ((base_power as int * (100 + deck_bonus as int)) / 100) as u32
}

/// Effective power of a deck: `base_power * (100 + deck_bonus) / 100`, truncated to 32 bits.
pub fn calculate_effective_power(base_power: u32, deck_bonus: u32) -> (r: u32)
    requires
        deck_bonus <= u32::MAX - 100,
    ensures
        r == effective_power_spec(base_power, deck_bonus),
{
    let base: u64 = base_power as u64;
    let bonus: u64 = (100 + deck_bonus) as u64;
    proof {
        lemma_mul_le(base as int, bonus as int, u32::MAX as int, u32::MAX as int);
    }
    (sat_mul_u64(base, bonus) / 100) as u32
}

/// Bonus percentage of a complete deck, by how many distinct categories it holds.
pub open spec fn deck_bonus_spec(deck_categories: u32) -> u32 {
    if deck_categories == 2 {
        5
    } else if deck_categories == 3 {
        10
    } else if deck_categories == 4 {
        25
    } else {
        0
    }
}

pub fn deck_bonus(deck_categories: u32) -> (r: u32)
    ensures
        r == deck_bonus_spec(deck_categories),
{
    match deck_categories {
        2 => 5,
        3 => 10,
        4 => 25,
        _ => 0,
    }
}

/// `part * 10_000 / total` in basis points, or zero when `total` is zero.
pub open spec fn share_bps_spec(part: int, total: int) -> int {
    if total > 0 {
        (part * 10000) / total
    } else {
        0
    }
}

/// A part's share of a total in basis points; refused (`None`) where `part * 10_000`
/// does not fit in 32 bits.
pub fn share_bps(part: u32, total: u32) -> (r: Option<u32>)
    ensures
        r is Some <==> part * 10000 <= u32::MAX,
        r is Some ==> r->0 == share_bps_spec(part as int, total as int),
{
    match part.checked_mul(10000) {
        None => None,
        Some(scaled) => {
            if total > 0 {
                Some(scaled / total)
            } else {
                Some(0)
            }
        },
    }
}

/// Rust's integer division (rounding toward zero) of a signed value by a positive one.
pub open spec fn trunc_div(a: int, d: int) -> int {
    if a >= 0 {
        a / d
    } else {
        -((-a) / d)
    }
}

} // verus!

verus! {

pub open spec fn fits_i128(x: int) -> bool {
    i128::MIN <= x <= i128::MAX
}

pub open spec fn fits_u32(x: int) -> bool {
    0 <= x <= u32::MAX
}

pub open spec fn fits_u64(x: int) -> bool {
    0 <= x <= u64::MAX
}

pub fn add_i128(a: i128, b: i128) -> (r: Result<i128, crate::error::NFTError>)
    ensures
        match r {
            Ok(v) => fits_i128(a + b) && v == a + b,
            Err(e) => !fits_i128(a + b) && e == crate::error::NFTError::Overflow,
        },
{
    match a.checked_add(b) {
        Some(v) => Ok(v),
        None => Err(crate::error::NFTError::Overflow),
    }
}

pub fn sub_i128(a: i128, b: i128) -> (r: Result<i128, crate::error::NFTError>)
    ensures
        match r {
            Ok(v) => fits_i128(a - b) && v == a - b,
            Err(e) => !fits_i128(a - b) && e == crate::error::NFTError::Overflow,
        },
{
    match a.checked_sub(b) {
        Some(v) => Ok(v),
        None => Err(crate::error::NFTError::Overflow),
    }
}

pub fn mul_i128(a: i128, b: i128) -> (r: Result<i128, crate::error::NFTError>)
    ensures
        match r {
            Ok(v) => fits_i128(a * b) && v == a * b,
            Err(e) => !fits_i128(a * b) && e == crate::error::NFTError::Overflow,
        },
{
    match a.checked_mul(b) {
        Some(v) => Ok(v),
        None => Err(crate::error::NFTError::Overflow),
    }
}

pub fn add_u32(a: u32, b: u32) -> (r: Result<u32, crate::error::NFTError>)
    ensures
        match r {
            Ok(v) => fits_u32(a + b) && v == a + b,
            Err(e) => !fits_u32(a + b) && e == crate::error::NFTError::Overflow,
        },
{
    match a.checked_add(b) {
        Some(v) => Ok(v),
        None => Err(crate::error::NFTError::Overflow),
    }
}

pub fn sub_u32(a: u32, b: u32) -> (r: Result<u32, crate::error::NFTError>)
    ensures
        match r {
            Ok(v) => fits_u32(a - b) && v == a - b,
            Err(e) => !fits_u32(a - b) && e == crate::error::NFTError::Overflow,
        },
{
    match a.checked_sub(b) {
        Some(v) => Ok(v),
        None => Err(crate::error::NFTError::Overflow),
    }
}

pub fn mul_u32(a: u32, b: u32) -> (r: Result<u32, crate::error::NFTError>)
    ensures
        match r {
            Ok(v) => fits_u32(a * b) && v == a * b,
            Err(e) => !fits_u32(a * b) && e == crate::error::NFTError::Overflow,
        },
{
    match a.checked_mul(b) {
        Some(v) => Ok(v),
        None => Err(crate::error::NFTError::Overflow),
    }
}

pub fn add_u64(a: u64, b: u64) -> (r: Result<u64, crate::error::NFTError>)
    ensures
        match r {
            Ok(v) => fits_u64(a + b) && v == a + b,
            Err(e) => !fits_u64(a + b) && e == crate::error::NFTError::Overflow,
        },
{
    match a.checked_add(b) {
        Some(v) => Ok(v),
        None => Err(crate::error::NFTError::Overflow),
    }
}

pub fn sub_u64(a: u64, b: u64) -> (r: Result<u64, crate::error::NFTError>)
    ensures
        match r {
            Ok(v) => fits_u64(a - b) && v == a - b,
            Err(e) => !fits_u64(a - b) && e == crate::error::NFTError::Overflow,
        },
{
    match a.checked_sub(b) {
        Some(v) => Ok(v),
        None => Err(crate::error::NFTError::Overflow),
    }
}

/// `x * pct / 10_000` rounded toward zero: a basis-point fee of `x`.
pub open spec fn bps_fee_spec(x: int, pct: int) -> int {
    trunc_div(x * pct, 10000)
}

/// A basis-point fee of a signed amount; refused where `x * pct` overflows.
pub fn bps_fee_i128(x: i128, pct: u32) -> (r: Result<i128, crate::error::NFTError>)
    ensures
        match r {
            Ok(v) => fits_i128(x * pct) && v == bps_fee_spec(x as int, pct as int),
            Err(e) => !fits_i128(x * pct) && e == crate::error::NFTError::Overflow,
        },
{
    let p = mul_i128(x, pct as i128)?;
    Ok(p / 10000)
}

/// A basis-point fee of an unsigned amount; refused where `x * pct` overflows.
pub fn bps_fee_u32(x: u32, pct: u32) -> (r: Result<u32, crate::error::NFTError>)
    ensures
        match r {
            Ok(v) => fits_u32(x * pct) && v == bps_fee_spec(x as int, pct as int),
            Err(e) => !fits_u32(x * pct) && e == crate::error::NFTError::Overflow,
        },
{
    let p = mul_u32(x, pct)?;
    Ok(p / 10000)
}

} // verus!
