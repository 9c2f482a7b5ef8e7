use boids::boid::Boid;
use boids::boid::BoidRole;
use boids::config::Config;
use boids::math::div_trunc_i64;
use boids::math::isqrt_u128;
use boids::speed::compute_new_speed;

fn with_velocity(vx: i64, vy: i64) -> Boid {
    Boid { x: 0, y: 0, vx, vy, role: BoidRole::Common }
}

fn speed_floor(b: &Boid) -> i64 {
    isqrt_u128((b.vx as i128 * b.vx as i128 + b.vy as i128 * b.vy as i128) as u128) as i64
}

/// A slow nonzero velocity is raised to the minimum speed exactly: the
/// (3, 4, 5) triangle scales to (3.3, 4.4, 5.5) in fixed point.
#[test]
fn slow_velocity_raised_to_min_speed() {
    let cfg = Config::default();
    let mut b = with_velocity(30_000, 40_000);
    compute_new_speed(&mut b, &cfg);
    assert_eq!(b.vx, 33_000);
    assert_eq!(b.vy, 44_000);
    let s = speed_floor(&b);
    assert!(cfg.min_speed <= s && s <= cfg.max_speed);
}

/// A fast velocity is lowered to within the band.
#[test]
fn fast_velocity_lowered_to_band() {
    let cfg = Config::default();
    let mut b = with_velocity(60_000, 80_000);
    compute_new_speed(&mut b, &cfg);
    assert_eq!(b.vx, 35_999);
    assert_eq!(b.vy, 47_999);
    let s = speed_floor(&b);
    assert!(cfg.min_speed <= s && s <= cfg.max_speed);
}

/// A velocity of a single quantum per axis — speed around 1.4 ten-
/// thousandths of a unit, far below the band — still lands inside the
/// band: the speed is measured at sub-quantum precision, so even here the
/// rescale has four digits of heading to work with. A second pass then
/// finds the speed in band and changes nothing.
#[test]
fn tiny_velocity_lands_in_band() {
    let cfg = Config::default();
    let mut b = with_velocity(1, 1);
    compute_new_speed(&mut b, &cfg);
    assert_eq!(b.vx, 38_892);
    assert_eq!(b.vy, 38_892);
    let s = speed_floor(&b);
    assert!(cfg.min_speed <= s && s <= cfg.max_speed);
    let once = b;
    compute_new_speed(&mut b, &cfg);
    assert_eq!(b, once);
}

/// A speed a fraction of a quantum above the band's top is rescaled down
/// into the band, not left at its floored value.
#[test]
fn sub_quantum_overshoot_is_rescaled() {
    let cfg = Config::default();
    let mut b = with_velocity(60_000, 200);
    compute_new_speed(&mut b, &cfg);
    assert_eq!(b.vx, 59_999);
    assert_eq!(b.vy, 199);
    let s = speed_floor(&b);
    assert!(cfg.min_speed <= s && s <= cfg.max_speed);
}

/// A velocity already in the band is untouched.
#[test]
fn in_band_velocity_unchanged() {
    let cfg = Config::default();
    let mut b = with_velocity(55_000, 0);
    compute_new_speed(&mut b, &cfg);
    assert_eq!(b.vx, 55_000);
    assert_eq!(b.vy, 0);
}

/// A zero velocity has no heading to preserve and stays zero.
#[test]
fn zero_velocity_stays_zero() {
    let cfg = Config::default();
    let mut b = with_velocity(0, 0);
    compute_new_speed(&mut b, &cfg);
    assert_eq!(b.vx, 0);
    assert_eq!(b.vy, 0);
}

/// The integer square root floors.
#[test]
fn integer_square_root_floors() {
    assert_eq!(isqrt_u128(0), 0);
    assert_eq!(isqrt_u128(1), 1);
    assert_eq!(isqrt_u128(2), 1);
    assert_eq!(isqrt_u128(99), 9);
    assert_eq!(isqrt_u128(100), 10);
    assert_eq!(isqrt_u128(5_000_000_000), 70_710);
}

/// Division truncates toward zero on both signs.
#[test]
fn division_truncates_toward_zero() {
    assert_eq!(div_trunc_i64(7, 2), 3);
    assert_eq!(div_trunc_i64(-7, 2), -3);
    assert_eq!(div_trunc_i64(6, 3), 2);
    assert_eq!(div_trunc_i64(-6, 3), -2);
}
