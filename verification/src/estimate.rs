//! Neighborhood evaluation: for one agent, scan a snapshot of the flock and
//! accumulate what it sees within visual range.

use vstd::prelude::*;
use crate::math::iabs;
use crate::math::div_trunc;
use crate::math::div_trunc_i64;
use crate::math::lemma_div_trunc_bound;
use crate::boid::Boid;
use crate::config::Config;
use crate::config::FLOCK_CAP;
use crate::config::POS_CAP;
use crate::config::RANGE_CAP;
use crate::config::SPEED_CAP;

verus! {

/// Mathematical model of a neighborhood summary: the running sums (or,
/// after averaging, the averages) as unbounded integers.
pub ghost struct EstimateView {
    pub xpos_avg: int,
    pub ypos_avg: int,
    pub xvel_avg: int,
    pub yvel_avg: int,
    pub neighboring_boids: int,
    pub close_dx: int,
    pub close_dy: int,
}

/// What one agent sees within visual range, rebuilt from scratch every tick.
/// The four `*_avg` fields hold running sums during the scan and become
/// averages once `set_average_speed_and_pos` divides them by the count.
pub struct BoidEstimate {
    /// Sum, then average, of neighbors' x positions.
    pub xpos_avg: i64,
    /// Sum, then average, of neighbors' y positions.
    pub ypos_avg: i64,
    /// Sum, then average, of neighbors' x velocities.
    pub xvel_avg: i64,
    /// Sum, then average, of neighbors' y velocities.
    pub yvel_avg: i64,
    /// Number of neighbors in the cohesion/alignment band.
    pub neighboring_boids: u32,
    /// Accumulated x offset away from agents inside the protected range.
    pub close_dx: i64,
    /// Accumulated y offset away from agents inside the protected range.
    pub close_dy: i64,
}

impl View for BoidEstimate {
    type V = EstimateView;

    open spec fn view(&self) -> EstimateView {
        EstimateView {
            xpos_avg: self.xpos_avg as int,
            ypos_avg: self.ypos_avg as int,
            xvel_avg: self.xvel_avg as int,
            yvel_avg: self.yvel_avg as int,
            neighboring_boids: self.neighboring_boids as int,
            close_dx: self.close_dx as int,
            close_dy: self.close_dy as int,
        }
    }
}

/// The summary before any agent has been scanned.
pub open spec fn empty_estimate() -> EstimateView {
    EstimateView {
        xpos_avg: 0,
        ypos_avg: 0,
        xvel_avg: 0,
        yvel_avg: 0,
        neighboring_boids: 0,
        close_dx: 0,
        close_dy: 0,
    }
}

/// Fold one flockmate into `me`'s summary. The axis-aligned box prefilter
/// gates both distance bands: an agent at `visual_range` or farther on
/// either axis contributes nothing. Inside the box, an agent within the
/// protected radius feeds only the close offset, and one within the visual
/// radius feeds only the position/velocity sums and the count.
pub open spec fn estimate_plus(e: EstimateView, me: Boid, other: Boid, c: Config) -> EstimateView {
    let dx = me.x - other.x;
    let dy = me.y - other.y;
    if iabs(dx) < c.visual_range && iabs(dy) < c.visual_range {
        let sq = dx * dx + dy * dy;
        if sq < c.protected_range * c.protected_range {
            EstimateView { close_dx: e.close_dx + dx, close_dy: e.close_dy + dy, ..e }
        } else if sq < c.visual_range * c.visual_range {
            EstimateView {
                xpos_avg: e.xpos_avg + other.x,
                ypos_avg: e.ypos_avg + other.y,
                xvel_avg: e.xvel_avg + other.vx,
                yvel_avg: e.yvel_avg + other.vy,
                neighboring_boids: e.neighboring_boids + 1,
                ..e
            }
        } else {
            e
        }
    } else {
        e
    }
}

/// Summary that `me`, standing in slot `i`, accumulates over the first `j`
/// snapshot entries. Slot `i` itself is skipped: an agent is not its own
/// neighbor.
pub open spec fn scan_estimate(me: Boid, s: Seq<Boid>, i: int, j: int, c: Config) -> EstimateView
    decreases j,
{
    if j <= 0 {
        empty_estimate()
    } else if j - 1 == i {
        scan_estimate(me, s, i, j - 1, c)
    } else {
        estimate_plus(scan_estimate(me, s, i, j - 1, c), me, s[j - 1], c)
    }
}

/// The full neighborhood summary of the agent in slot `i`.
pub open spec fn neighborhood(s: Seq<Boid>, i: int, c: Config) -> EstimateView {
    scan_estimate(s[i], s, i, s.len() as int, c)
}

/// Averaging a summary divides the four running sums by the neighbor count
/// and leaves the count and the close offset untouched.
pub open spec fn averaged(e: EstimateView) -> EstimateView {
    EstimateView {
        xpos_avg: div_trunc(e.xpos_avg, e.neighboring_boids),
        ypos_avg: div_trunc(e.ypos_avg, e.neighboring_boids),
        xvel_avg: div_trunc(e.xvel_avg, e.neighboring_boids),
        yvel_avg: div_trunc(e.yvel_avg, e.neighboring_boids),
        ..e
    }
}

/// Size bounds on a partial scan: the count stays below the number of
/// entries folded in, each sum is the count (or entry count) times the
/// per-agent cap.
pub proof fn lemma_scan_estimate_wf(me: Boid, s: Seq<Boid>, i: int, j: int, c: Config)
    requires
        c.valid(),
        0 <= j <= s.len(),
        forall|k: int| 0 <= k < s.len() ==> (#[trigger] s[k]).valid(),
    ensures
        0 <= scan_estimate(me, s, i, j, c).neighboring_boids <= j,
        iabs(scan_estimate(me, s, i, j, c).xpos_avg) <= scan_estimate(me, s, i, j, c).neighboring_boids * POS_CAP,
        iabs(scan_estimate(me, s, i, j, c).ypos_avg) <= scan_estimate(me, s, i, j, c).neighboring_boids * POS_CAP,
        iabs(scan_estimate(me, s, i, j, c).xvel_avg) <= scan_estimate(me, s, i, j, c).neighboring_boids * SPEED_CAP,
        iabs(scan_estimate(me, s, i, j, c).yvel_avg) <= scan_estimate(me, s, i, j, c).neighboring_boids * SPEED_CAP,
        iabs(scan_estimate(me, s, i, j, c).close_dx) <= j * RANGE_CAP,
        iabs(scan_estimate(me, s, i, j, c).close_dy) <= j * RANGE_CAP,
    decreases j,
{
    if j <= 0 {
    } else {
        lemma_scan_estimate_wf(me, s, i, j - 1, c);
        let prev = scan_estimate(me, s, i, j - 1, c);
        let e = scan_estimate(me, s, i, j, c);
        assert(forall|n: int, cap: int| n >= 0 && cap >= 0 ==> #[trigger] (n * cap) >= 0
            && (n + 1) * cap == n * cap + cap) by (nonlinear_arith);
        if j - 1 == i {
            assert((j - 1) * RANGE_CAP <= j * RANGE_CAP);
        } else {
            assert((j - 1) * RANGE_CAP + RANGE_CAP == j * RANGE_CAP);
        }
    }
}

/// Law: the box prefilter gates every contribution. An agent at or beyond
/// `visual_range` along either single axis feeds neither the close offset
/// nor the count and sums, whatever its Euclidean distance.
pub proof fn lemma_box_prefilter_excludes(e: EstimateView, me: Boid, other: Boid, c: Config)
    requires
        iabs(me.x - other.x) >= c.visual_range || iabs(me.y - other.y) >= c.visual_range,
    ensures
        estimate_plus(e, me, other, c) == e,
{
}

/// Law: an agent's own record never feeds its own summary. Whatever stands
/// in slot `i` of the snapshot, the summary built for slot `i` is the same.
pub proof fn lemma_own_record_ignored(me: Boid, s: Seq<Boid>, i: int, j: int, c: Config, a: Boid)
    requires
        0 <= i < s.len(),
        j <= s.len(),
    ensures
        scan_estimate(me, s.update(i, a), i, j, c) == scan_estimate(me, s, i, j, c),
    decreases j,
{
    if j > 0 {
        lemma_own_record_ignored(me, s, i, j - 1, c, a);
    }
}

impl BoidEstimate {
    /// An empty summary, ready for one agent's scan.
    pub fn new() -> (e: BoidEstimate)
        ensures
            e@ == empty_estimate(),
    {
        BoidEstimate {
            xpos_avg: 0,
            ypos_avg: 0,
            xvel_avg: 0,
            yvel_avg: 0,
            neighboring_boids: 0,
            close_dx: 0,
            close_dy: 0,
        }
    }
}

/// Fold one flockmate into the summary of `current`, exactly as
/// `estimate_plus` describes. The caller keeps the running sums within the
/// caps of a partial scan over at most `FLOCK_CAP` agents.
pub fn evaluate_situation(current: &Boid, other: &Boid, estimate: &mut BoidEstimate, cfg: &Config)
    requires
        cfg.valid(),
        current.valid(),
        other.valid(),
        old(estimate)@.neighboring_boids < FLOCK_CAP,
        iabs(old(estimate)@.xpos_avg) <= (FLOCK_CAP - 1) * POS_CAP,
        iabs(old(estimate)@.ypos_avg) <= (FLOCK_CAP - 1) * POS_CAP,
        iabs(old(estimate)@.xvel_avg) <= (FLOCK_CAP - 1) * SPEED_CAP,
        iabs(old(estimate)@.yvel_avg) <= (FLOCK_CAP - 1) * SPEED_CAP,
        iabs(old(estimate)@.close_dx) <= (FLOCK_CAP - 1) * RANGE_CAP,
        iabs(old(estimate)@.close_dy) <= (FLOCK_CAP - 1) * RANGE_CAP,
    ensures
        final(estimate)@ == estimate_plus(old(estimate)@, *current, *other, *cfg),
{
    let dx = current.x - other.x;
    let dy = current.y - other.y;
    let adx = if dx < 0 { -dx } else { dx };
    let ady = if dy < 0 { -dy } else { dy };
    if adx < cfg.visual_range && ady < cfg.visual_range {
        proof {
            assert(0 <= dx * dx <= 100_000_000_000_000 && 0 <= dy * dy
                <= 100_000_000_000_000) by (nonlinear_arith)
                requires
                    -10_000_000 <= dx <= 10_000_000,
                    -10_000_000 <= dy <= 10_000_000,
            ;
            assert(0 <= cfg.protected_range * cfg.protected_range <= 100_000_000_000_000
                && 0 <= cfg.visual_range * cfg.visual_range
                <= 100_000_000_000_000) by (nonlinear_arith)
                requires
                    0 <= cfg.protected_range <= 10_000_000,
                    0 <= cfg.visual_range <= 10_000_000,
            ;
        }
        let sq = dx * dx + dy * dy;
        if sq < cfg.protected_range * cfg.protected_range {
            estimate.close_dx = estimate.close_dx + dx;
            estimate.close_dy = estimate.close_dy + dy;
        } else if sq < cfg.visual_range * cfg.visual_range {
            estimate.xpos_avg = estimate.xpos_avg + other.x;
            estimate.ypos_avg = estimate.ypos_avg + other.y;
            estimate.xvel_avg = estimate.xvel_avg + other.vx;
            estimate.yvel_avg = estimate.yvel_avg + other.vy;
            estimate.neighboring_boids = estimate.neighboring_boids + 1;
        }
    }
}

/// Build the neighborhood summary of the agent in slot `i` from a snapshot
/// of the whole flock, skipping the agent's own record.
pub fn evaluate_neighborhood(snapshot: &Vec<Boid>, i: usize, cfg: &Config) -> (e: BoidEstimate)
    requires
        cfg.valid(),
        i < snapshot@.len(),
        snapshot@.len() <= FLOCK_CAP,
        forall|k: int| 0 <= k < snapshot@.len() ==> (#[trigger] snapshot@[k]).valid(),
    ensures
        e@ == neighborhood(snapshot@, i as int, *cfg),
{
    let me = snapshot[i];
    let mut est = BoidEstimate::new();
    let n = snapshot.len();
    let mut j: usize = 0;
    while j < n
        invariant
            cfg.valid(),
            i < n,
            j <= n,
            n == snapshot@.len() <= FLOCK_CAP,
            me == snapshot@[i as int],
            forall|k: int| 0 <= k < snapshot@.len() ==> (#[trigger] snapshot@[k]).valid(),
            est@ == scan_estimate(me, snapshot@, i as int, j as int, *cfg),
        decreases n - j,
    {
        if j != i {
            proof {
                lemma_scan_estimate_wf(me, snapshot@, i as int, j as int, *cfg);
                let e = scan_estimate(me, snapshot@, i as int, j as int, *cfg);
                assert(e.neighboring_boids * POS_CAP <= (FLOCK_CAP - 1) * POS_CAP
                    && e.neighboring_boids * SPEED_CAP <= (FLOCK_CAP - 1) * SPEED_CAP
                    && j * RANGE_CAP <= (FLOCK_CAP - 1) * RANGE_CAP) by (nonlinear_arith)
                    requires
                        0 <= e.neighboring_boids <= j,
                        j <= FLOCK_CAP - 1,
                ;
            }
            evaluate_situation(&me, &snapshot[j], &mut est, cfg);
        }
        j += 1;
    }
    est
}

/// Turn the running sums into averages; callable only when the agent saw at
/// least one neighbor in the cohesion band.
pub fn set_average_speed_and_pos(estimate: &mut BoidEstimate)
    requires
        old(estimate)@.neighboring_boids > 0,
        iabs(old(estimate)@.xpos_avg) <= FLOCK_CAP * POS_CAP,
        iabs(old(estimate)@.ypos_avg) <= FLOCK_CAP * POS_CAP,
        iabs(old(estimate)@.xvel_avg) <= FLOCK_CAP * SPEED_CAP,
        iabs(old(estimate)@.yvel_avg) <= FLOCK_CAP * SPEED_CAP,
    ensures
        final(estimate)@ == averaged(old(estimate)@),
{
    let n = estimate.neighboring_boids as i64;
    estimate.xpos_avg = div_trunc_i64(estimate.xpos_avg, n);
    estimate.ypos_avg = div_trunc_i64(estimate.ypos_avg, n);
    estimate.xvel_avg = div_trunc_i64(estimate.xvel_avg, n);
    estimate.yvel_avg = div_trunc_i64(estimate.yvel_avg, n);
}

/// Bounds carried across averaging: with the sums within `count` times the
/// per-agent caps, the averages land within the per-agent caps themselves.
pub proof fn lemma_averaged_bounds(e: EstimateView)
    requires
        e.neighboring_boids >= 1,
        iabs(e.xpos_avg) <= e.neighboring_boids * POS_CAP,
        iabs(e.ypos_avg) <= e.neighboring_boids * POS_CAP,
        iabs(e.xvel_avg) <= e.neighboring_boids * SPEED_CAP,
        iabs(e.yvel_avg) <= e.neighboring_boids * SPEED_CAP,
    ensures
        iabs(averaged(e).xpos_avg) <= POS_CAP,
        iabs(averaged(e).ypos_avg) <= POS_CAP,
        iabs(averaged(e).xvel_avg) <= SPEED_CAP,
        iabs(averaged(e).yvel_avg) <= SPEED_CAP,
        averaged(e).neighboring_boids == e.neighboring_boids,
        averaged(e).close_dx == e.close_dx,
        averaged(e).close_dy == e.close_dy,
{
    let n = e.neighboring_boids;
    lemma_div_trunc_bound(e.xpos_avg, n);
    lemma_div_trunc_bound(e.ypos_avg, n);
    lemma_div_trunc_bound(e.xvel_avg, n);
    lemma_div_trunc_bound(e.yvel_avg, n);
    assert(iabs(div_trunc(e.xpos_avg, n)) <= POS_CAP) by (nonlinear_arith)
        requires
            n >= 1,
            n * iabs(div_trunc(e.xpos_avg, n)) <= iabs(e.xpos_avg),
            iabs(e.xpos_avg) <= n * POS_CAP,
    ;
    assert(iabs(div_trunc(e.ypos_avg, n)) <= POS_CAP) by (nonlinear_arith)
        requires
            n >= 1,
            n * iabs(div_trunc(e.ypos_avg, n)) <= iabs(e.ypos_avg),
            iabs(e.ypos_avg) <= n * POS_CAP,
    ;
    assert(iabs(div_trunc(e.xvel_avg, n)) <= SPEED_CAP) by (nonlinear_arith)
        requires
            n >= 1,
            n * iabs(div_trunc(e.xvel_avg, n)) <= iabs(e.xvel_avg),
            iabs(e.xvel_avg) <= n * SPEED_CAP,
    ;
    assert(iabs(div_trunc(e.yvel_avg, n)) <= SPEED_CAP) by (nonlinear_arith)
        requires
            n >= 1,
            n * iabs(div_trunc(e.yvel_avg, n)) <= iabs(e.yvel_avg),
            iabs(e.yvel_avg) <= n * SPEED_CAP,
    ;
}

} // verus!
