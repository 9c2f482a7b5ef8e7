use boids::boid::Boid;
use boids::boid::BoidRole;
use boids::config::ArenaBounds;
use boids::config::Config;
use boids::motion::compute_new_position;
use boids::tick::step;
use boids::tick::tick;

/// A new agent starts at its position with zero velocity.
#[test]
fn new_agent_is_still() {
    let b = Boid::new(7, -7, BoidRole::Scout(1));
    assert_eq!(b.x, 7);
    assert_eq!(b.y, -7);
    assert_eq!(b.vx, 0);
    assert_eq!(b.vy, 0);
    assert_eq!(b.role, BoidRole::Scout(1));
}

/// The standard tuning carries the stock constants.
#[test]
fn standard_tuning_values() {
    let cfg = Config::default();
    assert_eq!(cfg.visual_range, 500_000);
    assert_eq!(cfg.protected_range, 100_000);
    assert_eq!(cfg.centering_factor, 5);
    assert_eq!(cfg.matching_factor, 1_500);
    assert_eq!(cfg.avoidance_factor, 1_000);
    assert_eq!(cfg.turn_factor, 10_000);
    assert_eq!(cfg.min_speed, 55_000);
    assert_eq!(cfg.max_speed, 60_000);
    assert_eq!(cfg.bias, 500);
}

/// Integration advances by one velocity step and clamps asymmetrically:
/// above the positive bound snaps down, at or below the negative bound
/// snaps up.
#[test]
fn integration_clamps_to_half_extents() {
    let bounds = ArenaBounds { width: 1_000, height: 1_000 };

    let mut past_right = Boid { x: 400, y: 0, vx: 200, vy: 0, role: BoidRole::Common };
    compute_new_position(&mut past_right, &bounds);
    assert_eq!(past_right.x, 500);
    assert_eq!(past_right.y, 0);

    let mut at_left = Boid { x: -400, y: 0, vx: -100, vy: 0, role: BoidRole::Common };
    compute_new_position(&mut at_left, &bounds);
    assert_eq!(at_left.x, -500);

    let mut inside = Boid { x: 100, y: -100, vx: 50, vy: 60, role: BoidRole::Common };
    compute_new_position(&mut inside, &bounds);
    assert_eq!(inside.x, 150);
    assert_eq!(inside.y, -40);
}

/// A single agent at the arena corner with outward velocity: one tick
/// nudges the velocity inward on both axes and clamps the position to the
/// corner bound, not beyond it.
#[test]
fn corner_agent_turns_and_clamps() {
    let cfg = Config::default();
    let bounds = ArenaBounds { width: 10_000_000, height: 8_000_000 };
    let mut flock = vec![Boid {
        x: 4_999_000,
        y: 3_999_000,
        vx: 60_000,
        vy: 60_000,
        role: BoidRole::Common,
    }];
    step(&mut flock, &bounds, &cfg);
    let b = flock[0];
    assert_eq!(b.vx, 42_426);
    assert_eq!(b.vy, 42_426);
    assert!(b.vx < 60_000 && b.vy < 60_000);
    assert_eq!(b.x, 5_000_000);
    assert_eq!(b.y, 4_000_000);
}

/// Scouts of groups 1 and 2 with identical (empty) neighborhoods diverge in
/// the sign of `vx` after one tick, while a common agent is unaffected.
#[test]
fn scout_groups_diverge_in_vx() {
    let cfg = Config::default();
    let bounds = ArenaBounds { width: 100_000_000, height: 100_000_000 };
    let mut flock = vec![
        Boid { x: 0, y: 0, vx: 0, vy: 0, role: BoidRole::Scout(1) },
        Boid { x: 20_000_000, y: 0, vx: 0, vy: 0, role: BoidRole::Scout(2) },
        Boid { x: 40_000_000, y: 0, vx: 0, vy: 0, role: BoidRole::Common },
    ];
    step(&mut flock, &bounds, &cfg);
    assert_eq!(flock[0].vx, 55_000);
    assert_eq!(flock[1].vx, -55_000);
    assert_eq!(flock[2].vx, 0);
    assert!(flock[0].vx > 0 && flock[1].vx < 0);
    assert_eq!(flock[0].x, 55_000);
    assert_eq!(flock[1].x, 19_945_000);
    assert_eq!(flock[2].x, 40_000_000);
}

/// One tick twice on two copies of a flock gives identical states.
#[test]
fn tick_is_deterministic() {
    let cfg = Config::default();
    let bounds = ArenaBounds { width: 10_000_000, height: 8_000_000 };
    let flock0 = vec![
        Boid { x: 0, y: 0, vx: 30_000, vy: -40_000, role: BoidRole::Scout(1) },
        Boid { x: 100_000, y: 50_000, vx: -60_000, vy: 10_000, role: BoidRole::Common },
        Boid { x: -4_000_000, y: 3_900_000, vx: 58_000, vy: 1, role: BoidRole::Scout(2) },
        Boid { x: 120_000, y: 60_000, vx: 0, vy: 0, role: BoidRole::Common },
    ];
    let mut run1 = flock0.clone();
    let mut run2 = flock0.clone();
    step(&mut run1, &bounds, &cfg);
    step(&mut run2, &bounds, &cfg);
    assert_eq!(run1, run2);
    assert_ne!(run1, flock0);
}

/// After a tick every position sits within the arena's half-extents.
#[test]
fn positions_stay_in_arena() {
    let cfg = Config::default();
    let bounds = ArenaBounds { width: 2_000_000, height: 1_000_000 };
    let mut flock = vec![
        Boid { x: 999_000, y: 499_000, vx: 60_000, vy: 60_000, role: BoidRole::Common },
        Boid { x: -999_000, y: -499_000, vx: -60_000, vy: -60_000, role: BoidRole::Common },
        Boid { x: 0, y: 0, vx: 10_000, vy: -10_000, role: BoidRole::Scout(1) },
    ];
    step(&mut flock, &bounds, &cfg);
    for b in &flock {
        assert!(-1_000_000 <= b.x && b.x <= 1_000_000);
        assert!(-500_000 <= b.y && b.y <= 500_000);
    }
}

/// Without arena bounds the driver stays idle and mutates nothing; with
/// them it steps.
#[test]
fn idle_without_bounds() {
    let cfg = Config::default();
    let flock0 = vec![Boid { x: 1, y: 2, vx: 300, vy: 400, role: BoidRole::Common }];
    let mut flock = flock0.clone();
    tick(&mut flock, None, &cfg);
    assert_eq!(flock, flock0);

    let bounds = ArenaBounds { width: 10_000_000, height: 10_000_000 };
    tick(&mut flock, Some(bounds), &cfg);
    assert_ne!(flock, flock0);
}
