//! Speed normalization: clamp the magnitude of a velocity into the allowed
//! band, preserving its heading up to fixed-point rounding.

use vstd::prelude::*;
use crate::math::div_away;
use crate::math::div_trunc;
use crate::math::iabs;
use crate::math::isqrt_u128;
use crate::math::lemma_component_le_sqrt;
use crate::math::lemma_div_away_bound;
use crate::math::lemma_div_trunc_bound;
use crate::math::lemma_iabs_mul;
use crate::math::lemma_iabs_sq;
use crate::math::lemma_sqrt_floor;
use crate::math::lemma_sq_sum_away_le;
use crate::math::lemma_sq_sum_floor_ge;
use crate::math::lemma_sq_sum_ge;
use crate::math::lemma_sq_sum_lt;
use crate::math::lemma_sqrt_floor_at_least;
use crate::math::lemma_sqrt_floor_at_most;
use crate::math::rescale_down;
use crate::math::rescale_up;
use crate::math::sqrt_floor;
use crate::boid::Boid;
use crate::config::Config;
use crate::config::VEL_CAP_BIAS;

verus! {

/// Sub-quantum precision of the normalizer's speed measurement: the speed
/// is taken as `floor(|v| * SPEED_PRECISION)`, four extra decimal digits
/// below one fixed-point quantum. Measuring at whole quanta would carry a
/// relative error of up to `1 / |v|`, which for a velocity of a few quanta
/// throws the rescale far out of the band; at this precision the relative
/// error is at most `1 / SPEED_PRECISION` for any nonzero velocity.
pub const SPEED_PRECISION: i64 = 10_000;

/// Squared magnitude of a velocity.
pub open spec fn speed_sq(vx: int, vy: int) -> int {
    vx * vx + vy * vy
}

/// Fixed-point speed of a velocity: the floored root of its squared
/// magnitude, in the same fixed-point units as its components.
pub open spec fn speed_of(vx: int, vy: int) -> int {
    sqrt_floor(speed_sq(vx, vy) as nat) as int
}

/// The speed measured at sub-quantum precision:
/// `floor(|v| * SPEED_PRECISION)`.
pub open spec fn speed_scaled(vx: int, vy: int) -> int {
    sqrt_floor((speed_sq(vx, vy) * SPEED_PRECISION * SPEED_PRECISION) as nat) as int
}

/// Velocity after the normalizer, with the speed measured at sub-quantum
/// precision. A true speed below `min_speed` is raised by rescaling each
/// component by `min_speed / speed` with the magnitude rounded up, so the
/// result covers `min_speed`; a true speed above `max_speed` is lowered by
/// rescaling by `max_speed / (speed + one sub-quantum)` with the magnitude
/// rounded down, so the result stays under `max_speed`. A zero speed means
/// a zero velocity: there is no heading to preserve, so nothing happens.
pub open spec fn normalized(b: Boid, c: Config) -> Boid {
    let s = speed_scaled(b.vx as int, b.vy as int);
    if 0 < s && s < c.min_speed * SPEED_PRECISION {
        Boid {
            vx: div_away(b.vx * c.min_speed * SPEED_PRECISION, s) as i64,
            vy: div_away(b.vy * c.min_speed * SPEED_PRECISION, s) as i64,
            ..b
        }
    } else if s > c.max_speed * SPEED_PRECISION {
        Boid {
            vx: div_trunc(b.vx * c.max_speed * SPEED_PRECISION, s + 1) as i64,
            vy: div_trunc(b.vy * c.max_speed * SPEED_PRECISION, s + 1) as i64,
            ..b
        }
    } else {
        b
    }
}

/// Clamp the agent's speed into `[min_speed, max_speed]`, leaving a zero
/// velocity alone. Componentwise the result never exceeds `max_speed`.
pub fn compute_new_speed(boid: &mut Boid, cfg: &Config)
    requires
        cfg.valid(),
        iabs(old(boid).vx as int) <= VEL_CAP_BIAS,
        iabs(old(boid).vy as int) <= VEL_CAP_BIAS,
    ensures
        *final(boid) == normalized(*old(boid), *cfg),
        iabs(final(boid).vx as int) <= cfg.max_speed,
        iabs(final(boid).vy as int) <= cfg.max_speed,
{
    let vx = boid.vx;
    let vy = boid.vy;
    proof {
        assert(0 <= vx as int * vx as int <= 169_000_000_000_000_000_000_000_000
            && 0 <= vy as int * vy as int
            <= 169_000_000_000_000_000_000_000_000) by (nonlinear_arith)
            requires
                -13_000_000_000_000 <= vx as int <= 13_000_000_000_000,
                -13_000_000_000_000 <= vy as int <= 13_000_000_000_000,
        ;
    }
    let sq128: i128 = (vx as i128) * (vx as i128) + (vy as i128) * (vy as i128);
    let sq: u128 = sq128 as u128;
    let scaled: u128 = sq * 100_000_000;
    let sp64: u64 = isqrt_u128(scaled);
    proof {
        assert(scaled as int == speed_sq(vx as int, vy as int) * SPEED_PRECISION
            * SPEED_PRECISION) by (nonlinear_arith)
            requires
                scaled as int == (vx as int * vx as int + vy as int * vy as int) * 100_000_000,
        ;
        lemma_sqrt_floor(scaled as nat);
        assert(sqrt_floor(scaled as nat) < 200_000_000_000_000_000) by (nonlinear_arith)
            requires
                sqrt_floor(scaled as nat) * sqrt_floor(scaled as nat) <= scaled as int,
                scaled as int <= 33_800_000_000_000_000_000_000_000_000_000_000,
                sqrt_floor(scaled as nat) >= 0,
        ;
        assert((vx as int * 10_000) * (vx as int * 10_000) == (vx as int * vx as int)
            * 100_000_000 && (vy as int * 10_000) * (vy as int * 10_000) == (vy as int
            * vy as int) * 100_000_000) by (nonlinear_arith);
        lemma_component_le_sqrt(vx as int * 10_000, scaled as nat);
        lemma_component_le_sqrt(vy as int * 10_000, scaled as nat);
        lemma_iabs_mul(vx as int, 10_000);
        lemma_iabs_mul(vy as int, 10_000);
    }
    let speed: i64 = sp64 as i64;
    let min_scaled: i64 = cfg.min_speed * SPEED_PRECISION;
    let max_scaled: i64 = cfg.max_speed * SPEED_PRECISION;
    if speed > 0 && speed < min_scaled {
        boid.vx = rescale_up(vx, cfg.min_speed, SPEED_PRECISION, speed);
        boid.vy = rescale_up(vy, cfg.min_speed, SPEED_PRECISION, speed);
    }
    if speed > max_scaled {
        boid.vx = rescale_down(vx, cfg.max_speed, SPEED_PRECISION, speed + 1);
        boid.vy = rescale_down(vy, cfg.max_speed, SPEED_PRECISION, speed + 1);
    }
    proof {
        if speed == 0 {
            assert(scaled as int == 0) by (nonlinear_arith)
                requires
                    (scaled as int) < (sqrt_floor(scaled as nat) + 1) * (sqrt_floor(
                        scaled as nat,
                    ) + 1),
                    sqrt_floor(scaled as nat) == 0,
                    scaled as int >= 0,
            ;
            assert(vx == 0 && vy == 0) by (nonlinear_arith)
                requires
                    (vx as int * vx as int + vy as int * vy as int) * 100_000_000 == 0,
                    vx as int * vx as int >= 0,
                    vy as int * vy as int >= 0,
            ;
        }
    }
}

/// Where the normalizer sends the squared speed, branch by branch: a
/// below-band velocity lands with squared speed in
/// `[min_speed^2, (min_speed + 102)^2)`, an above-band one in
/// `[(max_speed - 4)^2, max_speed^2)`, and an in-band one is untouched.
pub proof fn lemma_normalized_speed_sq_bounds(b: Boid, c: Config)
    requires
        c.valid(),
        iabs(b.vx as int) <= VEL_CAP_BIAS,
        iabs(b.vy as int) <= VEL_CAP_BIAS,
        speed_sq(b.vx as int, b.vy as int) > 0,
    ensures
        ({
            let ss = speed_scaled(b.vx as int, b.vy as int);
            let w = normalized(b, c);
            let sq2 = speed_sq(w.vx as int, w.vy as int);
            &&& 0 < ss && ss < c.min_speed * SPEED_PRECISION ==> c.min_speed * c.min_speed <= sq2
                < (c.min_speed + 102) * (c.min_speed + 102)
            &&& ss > c.max_speed * SPEED_PRECISION ==> sq2 < c.max_speed * c.max_speed && (
            c.max_speed >= 8 ==> sq2 >= (c.max_speed - 4) * (c.max_speed - 4))
        }),
{
    let vx = b.vx as int;
    let vy = b.vy as int;
    let pp = SPEED_PRECISION as int;
    let sq = speed_sq(vx, vy);
    let sqp = sq * pp * pp;
    let ss = speed_scaled(vx, vy);
    let w = normalized(b, c);
    let mn = c.min_speed as int;
    let mx = c.max_speed as int;
    let ux = iabs(vx) * pp;
    let uy = iabs(vy) * pp;
    lemma_sqrt_floor(sqp as nat);
    lemma_iabs_sq(vx);
    lemma_iabs_sq(vy);
    lemma_iabs_mul(vx, pp);
    lemma_iabs_mul(vy, pp);
    lemma_iabs_sq(vx * pp);
    lemma_iabs_sq(vy * pp);
    assert((vx * pp) * (vx * pp) + (vy * pp) * (vy * pp) == sqp
        && (vx * pp) * (vx * pp) >= 0 && (vy * pp) * (vy * pp) >= 0) by (nonlinear_arith)
        requires
            sqp == (vx * vx + vy * vy) * pp * pp,
    ;
    assert(ux * ux + uy * uy == sqp);
    lemma_component_le_sqrt(vx * pp, sqp as nat);
    lemma_component_le_sqrt(vy * pp, sqp as nat);
    assert(ux <= ss && uy <= ss);
    assert(pp * pp <= sqp) by (nonlinear_arith)
        requires
            sq >= 1,
            sqp == sq * pp * pp,
            pp >= 1,
    ;
    lemma_sqrt_floor_at_least(sqp as nat, pp);
    if 0 < ss && ss < mn * pp {
        let px = div_away(vx * mn * pp, ss);
        let py = div_away(vy * mn * pp, ss);
        let ax = iabs(px);
        let ay = iabs(py);
        lemma_div_away_bound(vx * mn * pp, ss);
        lemma_div_away_bound(vy * mn * pp, ss);
        lemma_iabs_mul(vx * mn, pp);
        lemma_iabs_mul(vx, mn);
        lemma_iabs_mul(vy * mn, pp);
        lemma_iabs_mul(vy, mn);
        assert((iabs(vx) * mn) * pp == ux * mn && (iabs(vy) * mn) * pp
            == uy * mn) by (nonlinear_arith)
            requires
                ux == iabs(vx) * pp,
                uy == iabs(vy) * pp,
        ;
        assert(iabs(vx * mn * pp) == ux * mn && iabs(vy * mn * pp) == uy * mn);
        lemma_iabs_sq(px);
        lemma_iabs_sq(py);
        assert(ax <= mn && ay <= mn) by (nonlinear_arith)
            requires
                ss >= 1,
                mn >= 1,
                ss * ax < ux * mn + ss,
                ss * ay < uy * mn + ss,
                ux <= ss,
                uy <= ss,
                ax >= 0,
                ay >= 0,
        ;
        assert(w.vx == px && w.vy == py);
        lemma_sq_sum_ge(ss, ax, ay, ux, uy, mn);
        lemma_sq_sum_away_le(ss, ax, ay, ux, uy, mn, pp);
    } else if ss > mx * pp {
        let d = ss + 1;
        let px = div_trunc(vx * mx * pp, d);
        let py = div_trunc(vy * mx * pp, d);
        let ax = iabs(px);
        let ay = iabs(py);
        lemma_div_trunc_bound(vx * mx * pp, d);
        lemma_div_trunc_bound(vy * mx * pp, d);
        lemma_iabs_mul(vx * mx, pp);
        lemma_iabs_mul(vx, mx);
        lemma_iabs_mul(vy * mx, pp);
        lemma_iabs_mul(vy, mx);
        assert((iabs(vx) * mx) * pp == ux * mx && (iabs(vy) * mx) * pp
            == uy * mx) by (nonlinear_arith)
            requires
                ux == iabs(vx) * pp,
                uy == iabs(vy) * pp,
        ;
        assert(iabs(vx * mx * pp) == ux * mx && iabs(vy * mx * pp) == uy * mx);
        lemma_iabs_sq(px);
        lemma_iabs_sq(py);
        assert(ax <= mx && ay <= mx) by (nonlinear_arith)
            requires
                d == ss + 1,
                ss >= 1,
                mx >= 1,
                d * ax <= ux * mx,
                d * ay <= uy * mx,
                ux <= ss,
                uy <= ss,
                ax >= 0,
                ay >= 0,
        ;
        assert(w.vx == px && w.vy == py);
        lemma_sq_sum_lt(d, ax, ay, ux, uy, mx);
        assert(ss >= mx + 1) by (nonlinear_arith)
            requires
                ss > mx * pp,
                pp >= 1,
                mx >= 1,
        ;
        if mx >= 8 {
            lemma_sq_sum_floor_ge(ss, ax, ay, ux, uy, mx);
        }
    }
}

/// Law: the speed band of the normalizer. Writing `s` for the (whole-
/// quantum) speed before and `s2` for the speed after, on any nonzero
/// velocity:
///
/// - a speed at or above `min_speed` comes back at or below `max_speed`;
/// - a speed below `min_speed` comes back in
///   `[min_speed, min_speed + 101]`: the rescale covers `min_speed`
///   exactly, and overshoots it by at most `min_speed / SPEED_PRECISION`
///   (at most 100 quanta, 0.01 units) plus componentwise rounding;
/// - a speed above `max_speed` comes back at or below `max_speed`, and
///   (for a top of at least 8 quanta) no lower than `max_speed - 4`:
///   flooring each rescaled component can fall a few quanta short;
/// - so for any band wider than 101 quanta (0.0101 distance units — the
///   standard band is 5,000), every nonzero pre-speed lands in
///   `[min_speed, max_speed]` exactly. A band narrower than that can be
///   overshot from below by the slack above, or undershot by up to 4
///   quanta when a true speed a fraction of a quantum above `max_speed`
///   is rescaled down.
pub proof fn lemma_speed_band(b: Boid, c: Config)
    requires
        c.valid(),
        iabs(b.vx as int) <= VEL_CAP_BIAS,
        iabs(b.vy as int) <= VEL_CAP_BIAS,
        speed_sq(b.vx as int, b.vy as int) > 0,
    ensures
        ({
            let s = speed_of(b.vx as int, b.vy as int);
            let w = normalized(b, c);
            let s2 = speed_of(w.vx as int, w.vy as int);
            &&& s >= c.min_speed ==> s2 <= c.max_speed
            &&& s < c.min_speed ==> c.min_speed <= s2 <= c.min_speed + 101
            &&& s > c.max_speed ==> s2 <= c.max_speed
            &&& s > c.max_speed && c.max_speed >= 8 ==> s2 >= c.max_speed - 4
            &&& c.max_speed >= c.min_speed + 101 ==> c.min_speed <= s2 <= c.max_speed
        }),
{
    let vx = b.vx as int;
    let vy = b.vy as int;
    let pp = SPEED_PRECISION as int;
    let sq = speed_sq(vx, vy);
    let sqp = sq * pp * pp;
    let ss = speed_scaled(vx, vy);
    let s = speed_of(vx, vy);
    let w = normalized(b, c);
    let sq2 = speed_sq(w.vx as int, w.vy as int);
    let mn = c.min_speed as int;
    let mx = c.max_speed as int;
    lemma_sqrt_floor(sq as nat);
    lemma_sqrt_floor(sqp as nat);
    lemma_normalized_speed_sq_bounds(b, c);
    assert(w.vx as int * w.vx as int >= 0 && w.vy as int * w.vy as int
        >= 0) by (nonlinear_arith);
    assert(s >= 1) by (nonlinear_arith)
        requires
            s >= 0,
            sq >= 1,
            sq < (s + 1) * (s + 1),
    ;
    if 0 < ss && ss < mn * pp {
        lemma_sqrt_floor_at_least(sq2 as nat, mn);
        lemma_sqrt_floor_at_most(sq2 as nat, mn + 101);
        assert(sqp < (mn * pp) * (mn * pp)) by (nonlinear_arith)
            requires
                sqp < (ss + 1) * (ss + 1),
                ss + 1 <= mn * pp,
                ss >= 0,
        ;
        assert(sq < mn * mn) by (nonlinear_arith)
            requires
                sqp == sq * pp * pp,
                sqp < (mn * pp) * (mn * pp),
                pp >= 1,
                sq >= 0,
                mn >= 0,
        ;
        assert(s < mn) by (nonlinear_arith)
            requires
                s * s <= sq,
                sq < mn * mn,
                s >= 0,
                mn >= 0,
        ;
    } else if ss > mx * pp {
        lemma_sqrt_floor_at_most(sq2 as nat, mx - 1);
        if mx >= 8 {
            lemma_sqrt_floor_at_least(sq2 as nat, mx - 4);
        }
        assert(sqp > (mx * pp) * (mx * pp)) by (nonlinear_arith)
            requires
                ss * ss <= sqp,
                ss >= mx * pp + 1,
                mx * pp >= 0,
        ;
        assert(sq > mx * mx) by (nonlinear_arith)
            requires
                sqp == sq * pp * pp,
                sqp > (mx * pp) * (mx * pp),
                pp >= 1,
                sq >= 0,
                mx >= 0,
        ;
        assert(s >= mx) by (nonlinear_arith)
            requires
                sq < (s + 1) * (s + 1),
                sq > mx * mx,
                s >= 0,
                mx >= 0,
        ;
    } else {
        assert(w == b);
        assert(pp * pp <= sqp) by (nonlinear_arith)
            requires
                sq >= 1,
                sqp == sq * pp * pp,
                pp >= 1,
        ;
        lemma_sqrt_floor_at_least(sqp as nat, pp);
        assert(ss >= mn * pp);
        assert(sqp >= (mn * pp) * (mn * pp)) by (nonlinear_arith)
            requires
                ss * ss <= sqp,
                ss >= mn * pp,
                mn * pp >= 0,
        ;
        assert(sq >= mn * mn) by (nonlinear_arith)
            requires
                sqp == sq * pp * pp,
                sqp >= (mn * pp) * (mn * pp),
                pp >= 1,
                mn >= 0,
        ;
        lemma_sqrt_floor_at_least(sq as nat, mn);
        assert(sqp < (mx * pp + pp) * (mx * pp + pp)) by (nonlinear_arith)
            requires
                sqp < (ss + 1) * (ss + 1),
                ss <= mx * pp,
                pp >= 1,
                ss >= 0,
        ;
        assert(sq < (mx + 1) * (mx + 1)) by (nonlinear_arith)
            requires
                sqp == sq * pp * pp,
                sqp < (mx * pp + pp) * (mx * pp + pp),
                pp >= 1,
                sq >= 0,
                mx >= 0,
        ;
        lemma_sqrt_floor_at_most(sq as nat, mx);
    }
}

/// Law: normalization settles in one pass. For any band wider than the
/// rounding slack, the first pass lands the speed inside the band, so a
/// second pass finds neither branch condition true and changes nothing. A
/// band narrower than the slack genuinely lacks this: a below-band rescale
/// may overshoot the top and be rescaled down again.
pub proof fn lemma_normalize_idempotent(b: Boid, c: Config)
    requires
        c.valid(),
        iabs(b.vx as int) <= VEL_CAP_BIAS,
        iabs(b.vy as int) <= VEL_CAP_BIAS,
        c.max_speed >= c.min_speed + 102,
    ensures
        normalized(normalized(b, c), c) == normalized(b, c),
{
    let vx = b.vx as int;
    let vy = b.vy as int;
    let pp = SPEED_PRECISION as int;
    let sq = speed_sq(vx, vy);
    let sqp = sq * pp * pp;
    let ss = speed_scaled(vx, vy);
    let w = normalized(b, c);
    let sq2 = speed_sq(w.vx as int, w.vy as int);
    let ss2 = speed_scaled(w.vx as int, w.vy as int);
    let mn = c.min_speed as int;
    let mx = c.max_speed as int;
    lemma_sqrt_floor(sqp as nat);
    assert(vx * vx >= 0 && vy * vy >= 0 && w.vx as int * w.vx as int >= 0 && w.vy as int
        * w.vy as int >= 0) by (nonlinear_arith);
    if sq == 0 {
        assert(vx == 0 && vy == 0) by (nonlinear_arith)
            requires
                vx * vx + vy * vy == 0,
        ;
        assert(sqp == 0) by (nonlinear_arith)
            requires
                sq == 0,
                sqp == sq * pp * pp,
        ;
        assert(ss == 0);
        assert(mx * pp >= 0) by (nonlinear_arith)
            requires
                mx >= 0,
                pp >= 0,
        ;
        assert(w == b);
    } else {
        lemma_normalized_speed_sq_bounds(b, c);
        if (0 < ss && ss < mn * pp) || ss > mx * pp {
            assert(mn * mn <= sq2 <= mx * mx - 1) by (nonlinear_arith)
                requires
                    mx >= mn + 102,
                    mn >= 1,
                    (0 < ss && ss < mn * pp) ==> mn * mn <= sq2 < (mn + 102) * (mn + 102),
                    ss > mx * pp ==> sq2 < mx * mx && sq2 >= (mx - 4) * (mx - 4),
                    (0 < ss && ss < mn * pp) || ss > mx * pp,
            ;
            assert((mn * pp) * (mn * pp) <= sq2 * pp * pp) by (nonlinear_arith)
                requires
                    mn * mn <= sq2,
                    pp >= 1,
                    mn >= 0,
            ;
            lemma_sqrt_floor_at_least((sq2 * pp * pp) as nat, mn * pp);
            assert(sq2 * pp * pp < (mx * pp) * (mx * pp)) by (nonlinear_arith)
                requires
                    sq2 <= mx * mx - 1,
                    pp >= 1,
                    mx >= 1,
            ;
            assert(mx * pp >= 1) by (nonlinear_arith)
                requires
                    mx >= 1,
                    pp >= 1,
            ;
            lemma_sqrt_floor_at_most((sq2 * pp * pp) as nat, mx * pp - 1);
            assert(ss2 >= mn * pp && ss2 <= mx * pp - 1);
            assert(normalized(w, c) == w);
        } else {
            assert(w == b);
        }
    }
}

} // verus!
