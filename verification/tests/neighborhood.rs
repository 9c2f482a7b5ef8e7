use boids::boid::Boid;
use boids::boid::BoidRole;
use boids::config::Config;
use boids::estimate::evaluate_neighborhood;
use boids::estimate::evaluate_situation;
use boids::estimate::set_average_speed_and_pos;
use boids::estimate::BoidEstimate;

fn at(x: i64, y: i64) -> Boid {
    Boid { x, y, vx: 0, vy: 0, role: BoidRole::Common }
}

fn moving(x: i64, y: i64, vx: i64, vy: i64) -> Boid {
    Boid { x, y, vx, vy, role: BoidRole::Common }
}

/// An agent inside the protected radius feeds only the close offset.
#[test]
fn protected_contact_accumulates_close_offset() {
    let cfg = Config::default();
    let me = at(0, 0);
    let other = at(50_000, 0);
    let mut est = BoidEstimate::new();
    evaluate_situation(&me, &other, &mut est, &cfg);
    assert_eq!(est.close_dx, -50_000);
    assert_eq!(est.close_dy, 0);
    assert_eq!(est.neighboring_boids, 0);
    assert_eq!(est.xpos_avg, 0);
}

/// An agent in the cohesion band feeds the sums and the count.
#[test]
fn visual_contact_accumulates_sums() {
    let cfg = Config::default();
    let me = at(0, 0);
    let other = moving(300_000, -100_000, 7, -9);
    let mut est = BoidEstimate::new();
    evaluate_situation(&me, &other, &mut est, &cfg);
    assert_eq!(est.neighboring_boids, 1);
    assert_eq!(est.xpos_avg, 300_000);
    assert_eq!(est.ypos_avg, -100_000);
    assert_eq!(est.xvel_avg, 7);
    assert_eq!(est.yvel_avg, -9);
    assert_eq!(est.close_dx, 0);
}

/// Inside the box but outside the visual circle: no contribution at all.
#[test]
fn box_corner_outside_circle_is_ignored() {
    let cfg = Config::default();
    let me = at(0, 0);
    let other = at(490_000, 490_000);
    let mut est = BoidEstimate::new();
    evaluate_situation(&me, &other, &mut est, &cfg);
    assert_eq!(est.neighboring_boids, 0);
    assert_eq!(est.close_dx, 0);
    assert_eq!(est.close_dy, 0);
    assert_eq!(est.xpos_avg, 0);
}

/// An agent exactly `visual_range` away on one axis fails the box
/// prefilter and is not counted, while one inside the circle is.
#[test]
fn axis_distance_at_visual_range_is_not_a_neighbor() {
    let cfg = Config::default();
    let flock = vec![at(0, 0), at(500_000, 0), at(300_000, 300_000)];
    let est = evaluate_neighborhood(&flock, 0, &cfg);
    assert_eq!(est.neighboring_boids, 1);
    assert_eq!(est.xpos_avg, 300_000);
    assert_eq!(est.ypos_avg, 300_000);
}

/// An agent's own record never feeds its own summary: a five-agent flock
/// whose center sits at distance zero from itself counts four neighbors,
/// and the sums hold only the other four.
#[test]
fn own_record_is_excluded_from_summary() {
    let cfg = Config::default();
    let center = moving(300_000, 0, 7, 7);
    let flock = vec![
        center,
        moving(500_000, 0, 1, 10),
        moving(100_000, 0, 2, 20),
        moving(300_000, 200_000, 3, 30),
        moving(300_000, -200_000, 4, 40),
    ];
    let est = evaluate_neighborhood(&flock, 0, &cfg);
    assert_eq!(est.neighboring_boids, 4);
    assert_eq!(est.xpos_avg, 1_200_000);
    assert_eq!(est.ypos_avg, 0);
    assert_eq!(est.xvel_avg, 10);
    assert_eq!(est.yvel_avg, 100);
    assert_eq!(est.close_dx, 0);
}

/// Three agents: one isolated beyond visual range has an empty summary;
/// the adjacent pair each accumulate a nonzero close offset and no count.
#[test]
fn isolated_and_adjacent_pair() {
    let cfg = Config::default();
    let flock = vec![at(0, 0), at(50_000, 0), at(10_000_000, 0)];

    let a = evaluate_neighborhood(&flock, 0, &cfg);
    assert_eq!(a.neighboring_boids, 0);
    assert_eq!(a.close_dx, -50_000);
    assert_eq!(a.close_dy, 0);

    let b = evaluate_neighborhood(&flock, 1, &cfg);
    assert_eq!(b.neighboring_boids, 0);
    assert_eq!(b.close_dx, 50_000);
    assert_eq!(b.close_dy, 0);

    let c = evaluate_neighborhood(&flock, 2, &cfg);
    assert_eq!(c.neighboring_boids, 0);
    assert_eq!(c.close_dx, 0);
    assert_eq!(c.close_dy, 0);
    assert_eq!(c.xpos_avg, 0);
}

/// Averaging divides the four sums by the count, truncating toward zero,
/// and leaves the count and the close offset alone.
#[test]
fn averaging_divides_sums_truncating() {
    let mut est = BoidEstimate {
        xpos_avg: 10,
        ypos_avg: -7,
        xvel_avg: 5,
        yvel_avg: 4,
        neighboring_boids: 2,
        close_dx: 11,
        close_dy: -11,
    };
    set_average_speed_and_pos(&mut est);
    assert_eq!(est.xpos_avg, 5);
    assert_eq!(est.ypos_avg, -3);
    assert_eq!(est.xvel_avg, 2);
    assert_eq!(est.yvel_avg, 2);
    assert_eq!(est.neighboring_boids, 2);
    assert_eq!(est.close_dx, 11);
    assert_eq!(est.close_dy, -11);
}
