use boids::boid::Boid;
use boids::boid::BoidRole;
use boids::config::ArenaBounds;
use boids::config::Config;
use boids::estimate::BoidEstimate;
use boids::steering::apply_alignment;
use boids::steering::apply_avoidance;
use boids::steering::apply_bias;
use boids::steering::apply_cohesion;
use boids::steering::turn_if_edge;

fn still(x: i64, y: i64) -> Boid {
    Boid { x, y, vx: 0, vy: 0, role: BoidRole::Common }
}

fn averaged_estimate(xp: i64, yp: i64, xv: i64, yv: i64) -> BoidEstimate {
    BoidEstimate {
        xpos_avg: xp,
        ypos_avg: yp,
        xvel_avg: xv,
        yvel_avg: yv,
        neighboring_boids: 1,
        close_dx: 0,
        close_dy: 0,
    }
}

/// Cohesion: `v += (avg_pos - pos) * centering + (avg_vel - v) * matching`,
/// with the fixed-point factors 0.0005 and 0.15.
#[test]
fn cohesion_pulls_toward_center_of_mass() {
    let cfg = Config::default();
    let mut b = still(0, 0);
    let est = averaged_estimate(200_000, 0, 10_000, 0);
    apply_cohesion(&mut b, &est, &cfg);
    assert_eq!(b.vx, 100 + 1_500);
    assert_eq!(b.vy, 0);
    assert_eq!(b.x, 0);
}

/// Alignment: `v += (avg_vel - v) * matching`, the standalone second pass.
#[test]
fn alignment_matches_average_velocity() {
    let cfg = Config::default();
    let mut b = still(0, 0);
    let est = averaged_estimate(0, 0, 10_000, -10_000);
    apply_alignment(&mut b, &est, &cfg);
    assert_eq!(b.vx, 1_500);
    assert_eq!(b.vy, -1_500);
}

/// Avoidance: `v += close_offset * avoidance`, factor 0.1.
#[test]
fn avoidance_pushes_along_close_offset() {
    let cfg = Config::default();
    let mut b = still(0, 0);
    let mut est = averaged_estimate(0, 0, 0, 0);
    est.close_dx = 3_000;
    est.close_dy = -3_000;
    apply_avoidance(&mut b, &est, &cfg);
    assert_eq!(b.vx, 300);
    assert_eq!(b.vy, -300);
}

/// Edge-turning near the left edge nudges `vx` up; in the interior it
/// leaves the velocity alone.
#[test]
fn edge_turn_nudges_inward() {
    let cfg = Config::default();
    let bounds = ArenaBounds { width: 10_000_000, height: 10_000_000 };

    let mut near_left = still(-4_900_000, 0);
    turn_if_edge(&mut near_left, &bounds, &cfg);
    assert_eq!(near_left.vx, 10_000);
    assert_eq!(near_left.vy, 0);

    let mut interior = still(0, 0);
    turn_if_edge(&mut interior, &bounds, &cfg);
    assert_eq!(interior.vx, 0);
    assert_eq!(interior.vy, 0);
}

/// Bias: group 1 blends `vx` toward positive, group 2 toward negative;
/// common agents and unknown groups are untouched.
#[test]
fn bias_diverges_scout_groups() {
    let cfg = Config::default();

    let mut s1 = Boid { x: 0, y: 0, vx: 2_000, vy: 5, role: BoidRole::Scout(1) };
    apply_bias(&mut s1, &cfg);
    assert_eq!(s1.vx, 1_900 + 500);
    assert_eq!(s1.vy, 5);

    let mut s2 = Boid { x: 0, y: 0, vx: 2_000, vy: 5, role: BoidRole::Scout(2) };
    apply_bias(&mut s2, &cfg);
    assert_eq!(s2.vx, 1_900 - 500);

    let mut common = Boid { x: 0, y: 0, vx: 2_000, vy: 5, role: BoidRole::Common };
    apply_bias(&mut common, &cfg);
    assert_eq!(common.vx, 2_000);

    let mut s3 = Boid { x: 0, y: 0, vx: 2_000, vy: 5, role: BoidRole::Scout(3) };
    apply_bias(&mut s3, &cfg);
    assert_eq!(s3.vx, 2_000);
}
