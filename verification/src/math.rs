//! Fixed-point arithmetic helpers: truncating signed division, magnitude
//! rescaling, and an integer square root, each with an exact specification.

use vstd::prelude::*;
use vstd::arithmetic::div_mod::lemma_fundamental_div_mod;
use vstd::arithmetic::div_mod::lemma_mod_division_less_than_divisor;

verus! {

/// Fixed-point scale: an `i64` coordinate, velocity component or factor
/// holds the real value multiplied by this constant.
pub const SCALE: i64 = 10_000;

/// Magnitude of an integer.
pub open spec fn iabs(a: int) -> int {
    if a >= 0 {
        a
    } else {
        -a
    }
}

/// Quotient of `a` by `b`, rounded toward zero (`b > 0`): the magnitude of
/// the quotient is floored, the sign is the sign of `a`.
pub open spec fn div_trunc(a: int, b: int) -> int {
    if a >= 0 {
        a / b
    } else {
        -((-a) / b)
    }
}

/// Quotient of `a` by `b` with the magnitude rounded up (`b > 0`): the
/// smallest integer of `a`'s sign whose product with `b` covers `a`.
pub open spec fn div_away(a: int, b: int) -> int {
    if a >= 0 {
        (a + b - 1) / b
    } else {
        -((-a + b - 1) / b)
    }
}

/// A nonnegative factor distributes over the magnitude.
pub proof fn lemma_iabs_mul(a: int, t: int)
    requires
        t >= 0,
    ensures
        iabs(a * t) == iabs(a) * t,
{
    if a >= 0 {
        assert(a * t >= 0) by (nonlinear_arith)
            requires
                a >= 0,
                t >= 0,
        ;
    } else {
        assert(a * t <= 0 && -(a * t) == (-a) * t) by (nonlinear_arith)
            requires
                a < 0,
                t >= 0,
        ;
    }
}

/// Squaring erases the sign.
pub proof fn lemma_iabs_sq(a: int)
    ensures
        iabs(a) * iabs(a) == a * a,
{
    if a < 0 {
        assert((-a) * (-a) == a * a) by (nonlinear_arith);
    }
}

/// Truncating division never grows the magnitude, and `b` times the
/// truncated quotient stays within one divisor below the dividend.
pub proof fn lemma_div_trunc_bound(a: int, b: int)
    requires
        b > 0,
    ensures
        b * iabs(div_trunc(a, b)) <= iabs(a),
        b * iabs(div_trunc(a, b)) + b > iabs(a),
        iabs(div_trunc(a, b)) <= iabs(a),
        a >= 0 ==> div_trunc(a, b) >= 0,
        a <= 0 ==> div_trunc(a, b) <= 0,
{
    let m = iabs(a);
    let q = m / b;
    lemma_fundamental_div_mod(m, b);
    lemma_mod_division_less_than_divisor(m, b);
    assert(q >= 0) by (nonlinear_arith)
        requires
            m == b * q + m % b,
            0 <= m % b < b,
            m >= 0,
            b > 0,
    ;
    assert(b * q <= m);
    assert(q <= b * q) by (nonlinear_arith)
        requires
            q >= 0,
            b >= 1,
    ;
}

/// The away-rounded quotient covers the dividend: `b * div_away(a, b)` is at
/// least `a` in magnitude, and at most one divisor beyond it.
pub proof fn lemma_div_away_bound(a: int, b: int)
    requires
        b > 0,
    ensures
        b * iabs(div_away(a, b)) >= iabs(a),
        b * iabs(div_away(a, b)) < iabs(a) + b,
        a >= 0 ==> div_away(a, b) >= 0,
        a <= 0 ==> div_away(a, b) <= 0,
{
    let m = iabs(a);
    let n = m + b - 1;
    let q = n / b;
    lemma_fundamental_div_mod(n, b);
    lemma_mod_division_less_than_divisor(n, b);
    assert(q >= 0) by (nonlinear_arith)
        requires
            n == b * q + n % b,
            0 <= n % b < b,
            n >= 0,
            b > 0,
    ;
    assert(b * q == n - n % b);
    assert(m == 0 ==> q == 0) by (nonlinear_arith)
        requires
            n == b * q + n % b,
            0 <= n % b < b,
            n == m + b - 1,
            b > 0,
            q >= 0,
    ;
    assert(iabs(div_away(a, b)) == q);
}

/// Truncating division of `i64` values, `b > 0`.
pub fn div_trunc_i64(a: i64, b: i64) -> (q: i64)
    requires
        b > 0,
        a > i64::MIN,
    ensures
        q == div_trunc(a as int, b as int),
{
    a / b
}

/// Floor of the square root of a natural number.
pub open spec fn sqrt_floor(x: nat) -> nat
    decreases x,
{
    if x == 0 {
        0
    } else {
        let r = sqrt_floor((x - 1) as nat);
        if (r + 1) * (r + 1) <= x {
            (r + 1) as nat
        } else {
            r
        }
    }
}

/// `sqrt_floor(x)` is the unique `r` with `r * r <= x < (r + 1) * (r + 1)`.
pub proof fn lemma_sqrt_floor(x: nat)
    ensures
        sqrt_floor(x) * sqrt_floor(x) <= x,
        x < (sqrt_floor(x) + 1) * (sqrt_floor(x) + 1),
    decreases x,
{
    let s = sqrt_floor(x);
    if x == 0 {
        assert(s == 0);
        assert(s * s <= x && x < (s + 1) * (s + 1)) by (nonlinear_arith)
            requires
                s == 0,
                x == 0,
        ;
    } else {
        lemma_sqrt_floor((x - 1) as nat);
        let r = sqrt_floor((x - 1) as nat);
        if (r + 1) * (r + 1) <= x {
            assert(s == r + 1);
            assert(x < (s + 1) * (s + 1)) by (nonlinear_arith)
                requires
                    s == r + 1,
                    r >= 0,
                    x - 1 < (r + 1) * (r + 1),
            ;
            assert(s * s <= x) by (nonlinear_arith)
                requires
                    s == r + 1,
                    (r + 1) * (r + 1) <= x,
            ;
        } else {
            assert(s == r);
            assert(s * s <= x) by (nonlinear_arith)
                requires
                    s == r,
                    r * r <= x - 1,
            ;
            assert(x < (s + 1) * (s + 1)) by (nonlinear_arith)
                requires
                    s == r,
                    !((r + 1) * (r + 1) <= x),
            ;
        }
    }
}

/// Any `r` in the defining band of the square root is the square root.
pub proof fn lemma_sqrt_floor_unique(x: nat, r: nat)
    requires
        r * r <= x,
        x < (r + 1) * (r + 1),
    ensures
        sqrt_floor(x) == r,
{
    lemma_sqrt_floor(x);
    let s = sqrt_floor(x);
    assert(s == r) by (nonlinear_arith)
        requires
            s * s <= x,
            x < (s + 1) * (s + 1),
            r * r <= x,
            x < (r + 1) * (r + 1),
            s >= 0,
            r >= 0,
    ;
}

/// A square below `x` bounds the root of `x` from below.
pub proof fn lemma_sqrt_floor_at_least(x: nat, k: int)
    requires
        k >= 0,
        k * k <= x,
    ensures
        sqrt_floor(x) >= k,
{
    lemma_sqrt_floor(x);
    let s = sqrt_floor(x);
    assert(s >= k) by (nonlinear_arith)
        requires
            x < (s + 1) * (s + 1),
            k * k <= x,
            s >= 0,
            k >= 0,
    ;
}

/// A square beyond `x` bounds the root of `x` from above.
pub proof fn lemma_sqrt_floor_at_most(x: nat, k: int)
    requires
        k >= 0,
        x < (k + 1) * (k + 1),
    ensures
        sqrt_floor(x) <= k,
{
    lemma_sqrt_floor(x);
    let s = sqrt_floor(x);
    assert(s <= k) by (nonlinear_arith)
        requires
            s * s <= x,
            x < (k + 1) * (k + 1),
            s >= 0,
            k >= 0,
    ;
}

/// No component of a sum of two squares exceeds the root of the sum.
pub proof fn lemma_component_le_sqrt(c: int, sq: nat)
    requires
        c * c <= sq,
    ensures
        iabs(c) <= sqrt_floor(sq),
{
    lemma_sqrt_floor(sq);
    let s = sqrt_floor(sq);
    assert(iabs(c) <= s) by (nonlinear_arith)
        requires
            c * c <= sq,
            sq < (s + 1) * (s + 1),
            s >= 0,
    ;
}

/// Scaled lower bound on a sum of two squares: if `s * ax` and `s * ay`
/// cover `u * t` and `v * t`, and `(u, v)` is no shorter than `s`, then
/// `(ax, ay)` is no shorter than `t`.
pub proof fn lemma_sq_sum_ge(s: int, ax: int, ay: int, u: int, v: int, t: int)
    requires
        s >= 1,
        t >= 0,
        ax >= 0,
        ay >= 0,
        u >= 0,
        v >= 0,
        s * ax >= u * t,
        s * ay >= v * t,
        u * u + v * v >= s * s,
    ensures
        ax * ax + ay * ay >= t * t,
{
    assert(u * t >= 0 && v * t >= 0 && t * t >= 0) by (nonlinear_arith)
        requires
            u >= 0,
            v >= 0,
            t >= 0,
    ;
    assert(s * s >= 1) by (nonlinear_arith)
        requires
            s >= 1,
    ;
    assert((s * ax) * (s * ax) >= (u * t) * (u * t)) by (nonlinear_arith)
        requires
            s * ax >= u * t,
            u * t >= 0,
    ;
    assert((s * ay) * (s * ay) >= (v * t) * (v * t)) by (nonlinear_arith)
        requires
            s * ay >= v * t,
            v * t >= 0,
    ;
    assert((u * t) * (u * t) + (v * t) * (v * t) == (t * t) * (u * u + v * v)) by (nonlinear_arith);
    assert((t * t) * (u * u + v * v) >= (t * t) * (s * s)) by (nonlinear_arith)
        requires
            u * u + v * v >= s * s,
            t * t >= 0,
    ;
    assert((s * ax) * (s * ax) + (s * ay) * (s * ay) == (s * s) * (ax * ax + ay
        * ay)) by (nonlinear_arith);
    assert(ax * ax + ay * ay >= t * t) by (nonlinear_arith)
        requires
            (s * s) * (ax * ax + ay * ay) >= (t * t) * (s * s),
            s * s >= 1,
    ;
}

/// Scaled strict upper bound on a sum of two squares: if `d * ax` and
/// `d * ay` stay within `u * t` and `v * t`, and `(u, v)` is strictly
/// shorter than `d`, then `(ax, ay)` is strictly shorter than `t`.
pub proof fn lemma_sq_sum_lt(d: int, ax: int, ay: int, u: int, v: int, t: int)
    requires
        d >= 1,
        t >= 1,
        ax >= 0,
        ay >= 0,
        u >= 0,
        v >= 0,
        d * ax <= u * t,
        d * ay <= v * t,
        u * u + v * v < d * d,
    ensures
        ax * ax + ay * ay < t * t,
{
    assert(d * ax >= 0 && d * ay >= 0) by (nonlinear_arith)
        requires
            d >= 1,
            ax >= 0,
            ay >= 0,
    ;
    assert(t * t >= 1) by (nonlinear_arith)
        requires
            t >= 1,
    ;
    assert(d * d >= 1) by (nonlinear_arith)
        requires
            d >= 1,
    ;
    assert((d * ax) * (d * ax) <= (u * t) * (u * t)) by (nonlinear_arith)
        requires
            d * ax <= u * t,
            d * ax >= 0,
    ;
    assert((d * ay) * (d * ay) <= (v * t) * (v * t)) by (nonlinear_arith)
        requires
            d * ay <= v * t,
            d * ay >= 0,
    ;
    assert((u * t) * (u * t) + (v * t) * (v * t) == (t * t) * (u * u + v * v)) by (nonlinear_arith);
    assert((t * t) * (u * u + v * v) < (t * t) * (d * d)) by (nonlinear_arith)
        requires
            u * u + v * v < d * d,
            t * t >= 1,
    ;
    assert((d * ax) * (d * ax) + (d * ay) * (d * ay) == (d * d) * (ax * ax + ay
        * ay)) by (nonlinear_arith);
    assert(ax * ax + ay * ay < t * t) by (nonlinear_arith)
        requires
            (d * d) * (ax * ax + ay * ay) < (t * t) * (d * d),
            d * d >= 1,
    ;
}

/// Scaled ceiling-rescale upper bound: rounding each component of a vector
/// rescaled by `t / s` away from zero overshoots the target length `t` by
/// at most `t / s` plus the componentwise rounding, and with the speed `s`
/// measured at sub-quantum precision `p` (so `s >= p` and `t <= 100 * p`)
/// that comes to at most 101 quanta.
pub proof fn lemma_sq_sum_away_le(s: int, ax: int, ay: int, u: int, v: int, t: int, p: int)
    requires
        p >= 1,
        1 <= t <= 100 * p,
        s >= p,
        ax >= 0,
        ay >= 0,
        u >= 0,
        v >= 0,
        u <= s,
        v <= s,
        s * ax < u * t + s,
        s * ay < v * t + s,
        u * u + v * v < (s + 1) * (s + 1),
    ensures
        ax * ax + ay * ay < (t + 102) * (t + 102),
{
    assert(s * ax >= 0 && s * ay >= 0 && t * t >= 1 && s * s >= 1) by (nonlinear_arith)
        requires
            s >= 1,
            ax >= 0,
            ay >= 0,
            t >= 1,
    ;
    assert((s * ax) * (s * ax) < (u * t + s) * (u * t + s)) by (nonlinear_arith)
        requires
            s * ax < u * t + s,
            s * ax >= 0,
    ;
    assert((s * ay) * (s * ay) < (v * t + s) * (v * t + s)) by (nonlinear_arith)
        requires
            s * ay < v * t + s,
            s * ay >= 0,
    ;
    assert((u * t + s) * (u * t + s) == (t * t) * (u * u) + 2 * s * t * u + s
        * s) by (nonlinear_arith);
    assert((v * t + s) * (v * t + s) == (t * t) * (v * v) + 2 * s * t * v + s
        * s) by (nonlinear_arith);
    assert((t * t) * (u * u + v * v) == (t * t) * (u * u) + (t * t) * (v * v)) by (nonlinear_arith);
    assert(2 * s * t * (u + v) == 2 * s * t * u + 2 * s * t * v) by (nonlinear_arith);
    assert((t * t) * (u * u + v * v) <= (t * t) * ((s + 1) * (s + 1) - 1)) by (nonlinear_arith)
        requires
            u * u + v * v < (s + 1) * (s + 1),
            t * t >= 1,
    ;
    assert(2 * s * t * (u + v) <= 4 * (s * s) * t) by (nonlinear_arith)
        requires
            u <= s,
            v <= s,
            s >= 1,
            t >= 1,
    ;
    assert((s * ax) * (s * ax) + (s * ay) * (s * ay) == (s * s) * (ax * ax + ay
        * ay)) by (nonlinear_arith);
    assert(2 * (t * t) * s <= 200 * (s * s) * t) by (nonlinear_arith)
        requires
            1 <= t,
            t <= 100 * s,
            s >= 1,
    ;
    assert((t * t) * ((s + 1) * (s + 1) - 1) + 4 * (s * s) * t + 2 * (s * s) <= (s * s) * ((t
        + 102) * (t + 102))) by (nonlinear_arith)
        requires
            2 * (t * t) * s <= 200 * (s * s) * t,
            s >= 1,
            t >= 1,
            s * s >= 1,
            t * t >= 1,
    ;
    assert(ax * ax + ay * ay < (t + 102) * (t + 102)) by (nonlinear_arith)
        requires
            (s * s) * (ax * ax + ay * ay) < (s * s) * ((t + 102) * (t + 102)),
            s * s >= 1,
    ;
}

/// Scaled floor-rescale lower bound: flooring each component of a vector
/// rescaled by `t / (s + 1)` loses at most four quanta of length. Stated
/// for `t >= 8` so the slack stays within the band.
pub proof fn lemma_sq_sum_floor_ge(s: int, ax: int, ay: int, u: int, v: int, t: int)
    requires
        t >= 8,
        s >= t + 1,
        0 <= ax <= t,
        0 <= ay <= t,
        u >= 0,
        v >= 0,
        (s + 1) * ax + (s + 1) > u * t,
        (s + 1) * ay + (s + 1) > v * t,
        u * u + v * v >= s * s,
    ensures
        ax * ax + ay * ay >= (t - 4) * (t - 4),
{
    let e = s + 1;
    assert(u * t >= 0 && v * t >= 0 && t * t >= 0) by (nonlinear_arith)
        requires
            u >= 0,
            v >= 0,
            t >= 8,
    ;
    assert(e * e >= 1) by (nonlinear_arith)
        requires
            e >= 1,
    ;
    assert((e * ax + e) * (e * ax + e) > (u * t) * (u * t)) by (nonlinear_arith)
        requires
            e * ax + e > u * t,
            u * t >= 0,
    ;
    assert((e * ay + e) * (e * ay + e) > (v * t) * (v * t)) by (nonlinear_arith)
        requires
            e * ay + e > v * t,
            v * t >= 0,
    ;
    assert((u * t) * (u * t) + (v * t) * (v * t) == (t * t) * (u * u + v * v)) by (nonlinear_arith);
    assert((t * t) * (u * u + v * v) >= (t * t) * (s * s)) by (nonlinear_arith)
        requires
            u * u + v * v >= s * s,
            t * t >= 0,
    ;
    assert((e * ax + e) * (e * ax + e) + (e * ay + e) * (e * ay + e) == (e * e) * ((ax * ax + ay
        * ay) + 2 * (ax + ay) + 2)) by (nonlinear_arith);
    assert((e * e) * ((ax * ax + ay * ay) + 2 * (ax + ay) + 2) <= (e * e) * ((ax * ax + ay * ay)
        + 4 * t + 2)) by (nonlinear_arith)
        requires
            ax <= t,
            ay <= t,
            e * e >= 0,
    ;
    assert((e * e) * ((t - 4) * (t - 4) + 4 * t + 1) <= (t * t) * (s * s)) by (nonlinear_arith)
        requires
            t >= 8,
            s >= t + 1,
            e == s + 1,
    ;
    assert((e * e) * ((ax * ax + ay * ay) + 4 * t + 2) > (e * e) * ((t - 4) * (t - 4) + 4 * t
        + 1)) by (nonlinear_arith)
        requires
            (e * e) * ((ax * ax + ay * ay) + 4 * t + 2) > (t * t) * (s * s),
            (e * e) * ((t - 4) * (t - 4) + 4 * t + 1) <= (t * t) * (s * s),
    ;
    assert(ax * ax + ay * ay >= (t - 4) * (t - 4)) by (nonlinear_arith)
        requires
            (e * e) * ((ax * ax + ay * ay) + 4 * t + 2) > (e * e) * ((t - 4) * (t - 4) + 4 * t + 1),
            e * e >= 1,
    ;
}

/// Rescale one velocity component up: `div_away(c * t * k, s)`, the
/// magnitude of `c * t * k / s` rounded away from zero, where `s` is a
/// speed measured at sub-quantum precision `k`. With `|c| * k <= s` the
/// result never exceeds `t` in magnitude, so a rescaled velocity covers
/// its target speed without overshooting it componentwise.
pub fn rescale_up(c: i64, t: i64, k: i64, s: i64) -> (r: i64)
    requires
        0 < s,
        0 < t <= 1_000_000,
        0 < k <= 10_000,
        iabs(c as int) * k <= s,
    ensures
        r as int == div_away(c as int * t as int * k as int, s as int),
        iabs(r as int) <= t,
{
    let m: u128 = if c < 0 {
        (-(c as i128)) as u128
    } else {
        c as u128
    };
    assert(m == iabs(c as int));
    proof {
        assert(m as int <= s as int) by (nonlinear_arith)
            requires
                m as int * (k as int) <= s as int,
                k as int >= 1,
                m as int >= 0,
        ;
        assert(0 <= m as int * t as int <= 0x7fff_ffff_ffff_ffff * 1_000_000 && 0 <= m as int
            * t as int * k as int
            <= 0x7fff_ffff_ffff_ffff * 1_000_000 * 10_000) by (nonlinear_arith)
            requires
                0 <= m as int <= 0x7fff_ffff_ffff_ffff,
                0 <= t as int <= 1_000_000,
                0 <= k as int <= 10_000,
        ;
    }
    let q: u128 = (m * (t as u128) * (k as u128) + (s as u128) - 1) / (s as u128);
    proof {
        let n = m as int * t as int * k as int + s as int - 1;
        lemma_fundamental_div_mod(n, s as int);
        lemma_mod_division_less_than_divisor(n, s as int);
        assert(m as int * t as int * k as int <= s as int * t as int) by (nonlinear_arith)
            requires
                m as int * (k as int) <= s as int,
                m as int >= 0,
                k as int >= 1,
                t as int >= 0,
        ;
        assert(n / (s as int) <= t as int) by (nonlinear_arith)
            requires
                n == s as int * (n / (s as int)) + n % (s as int),
                0 <= n % (s as int),
                n <= s as int * (t as int) + s as int - 1,
                s as int >= 1,
        ;
        assert(n / (s as int) >= 0) by (nonlinear_arith)
            requires
                n == s as int * (n / (s as int)) + n % (s as int),
                n % (s as int) < s as int,
                n >= 0,
                s as int >= 1,
        ;
        let ci = c as int;
        let ti = t as int;
        let ki = k as int;
        if c >= 0 {
            assert(ci * ti * ki >= 0) by (nonlinear_arith)
                requires
                    ci >= 0,
                    ti >= 0,
                    ki >= 0,
            ;
            assert(ci * ti * ki == m as int * ti * ki);
        } else {
            assert(ci * ti * ki < 0 && -(ci * ti * ki) == (-ci) * ti * ki) by (nonlinear_arith)
                requires
                    ci < 0,
                    ti > 0,
                    ki > 0,
            ;
            assert((-ci) * ti * ki == m as int * ti * ki);
        }
    }
    let qi = q as i64;
    if c < 0 {
        -qi
    } else {
        qi
    }
}

/// Rescale one velocity component down: `div_trunc(c * t * k, d)`, the
/// magnitude of `c * t * k / d` floored, where `d` exceeds a speed measured
/// at sub-quantum precision `k`. With `|c| * k < d` the result never
/// exceeds `t` in magnitude.
pub fn rescale_down(c: i64, t: i64, k: i64, d: i64) -> (r: i64)
    requires
        0 < d,
        0 < t <= 1_000_000,
        0 < k <= 10_000,
        iabs(c as int) * k < d,
    ensures
        r as int == div_trunc(c as int * t as int * k as int, d as int),
        iabs(r as int) <= t,
{
    let m: u128 = if c < 0 {
        (-(c as i128)) as u128
    } else {
        c as u128
    };
    assert(m == iabs(c as int));
    proof {
        assert(m as int <= d as int - 1) by (nonlinear_arith)
            requires
                m as int * (k as int) < d as int,
                k as int >= 1,
                m as int >= 0,
        ;
        assert(0 <= m as int * t as int <= 0x7fff_ffff_ffff_ffff * 1_000_000 && 0 <= m as int
            * t as int * k as int
            <= 0x7fff_ffff_ffff_ffff * 1_000_000 * 10_000) by (nonlinear_arith)
            requires
                0 <= m as int <= 0x7fff_ffff_ffff_ffff,
                0 <= t as int <= 1_000_000,
                0 <= k as int <= 10_000,
        ;
    }
    let q: u128 = m * (t as u128) * (k as u128) / (d as u128);
    proof {
        let n = m as int * t as int * k as int;
        lemma_fundamental_div_mod(n, d as int);
        lemma_mod_division_less_than_divisor(n, d as int);
        assert(n <= d as int * t as int - t as int) by (nonlinear_arith)
            requires
                m as int * (k as int) <= d as int - 1,
                m as int >= 0,
                k as int >= 1,
                t as int >= 0,
                n == m as int * t as int * k as int,
        ;
        assert(0 <= n / (d as int) <= t as int) by (nonlinear_arith)
            requires
                n == d as int * (n / (d as int)) + n % (d as int),
                0 <= n % (d as int) < d as int,
                n <= d as int * (t as int) - t as int,
                n >= 0,
                t as int >= 0,
                d as int >= 1,
        ;
        let ci = c as int;
        let ti = t as int;
        let ki = k as int;
        if c >= 0 {
            assert(ci * ti * ki >= 0) by (nonlinear_arith)
                requires
                    ci >= 0,
                    ti >= 0,
                    ki >= 0,
            ;
            assert(ci * ti * ki == m as int * ti * ki);
        } else {
            assert(ci * ti * ki < 0 && -(ci * ti * ki) == (-ci) * ti * ki) by (nonlinear_arith)
                requires
                    ci < 0,
                    ti > 0,
                    ki > 0,
            ;
            assert((-ci) * ti * ki == m as int * ti * ki);
        }
    }
    let qi = q as i64;
    if c < 0 {
        -qi
    } else {
        qi
    }
}

/// Integer square root of a `u128` below `2^126`, by binary search.
pub fn isqrt_u128(x: u128) -> (r: u64)
    requires
        x < 0x4000_0000_0000_0000_0000_0000_0000_0000,
    ensures
        r == sqrt_floor(x as nat),
{
    let mut lo: u128 = 0;
    let mut hi: u128 = 0x8000_0000_0000_0000;
    while lo + 1 < hi
        invariant
            0 <= lo < hi <= 0x8000_0000_0000_0000,
            (lo as int) * (lo as int) <= x,
            (x as int) < (hi as int) * (hi as int),
        decreases hi - lo,
    {
        let mid = lo + (hi - lo) / 2;
        assert(lo < mid < hi);
        assert((mid as int) * (mid as int) < 0x8000_0000_0000_0000_0000_0000_0000_0000) by (nonlinear_arith)
            requires
                0 <= mid < 0x8000_0000_0000_0000,
        ;
        if mid * mid <= x {
            lo = mid;
        } else {
            hi = mid;
        }
    }
    proof {
        lemma_sqrt_floor_unique(x as nat, lo as nat);
    }
    lo as u64
}

} // verus!
