//! Steering rules: cohesion, alignment, avoidance, edge-turning and role
//! bias, applied to one agent's velocity in that fixed order.

use vstd::prelude::*;
use crate::math::SCALE;
use crate::math::div_trunc;
use crate::math::div_trunc_i64;
use crate::math::iabs;
use crate::math::lemma_div_trunc_bound;
use crate::boid::Boid;
use crate::boid::BoidRole;
use crate::config::ArenaBounds;
use crate::config::Config;
use crate::config::EDGE_MARGIN;
use crate::config::POS_CAP;
use crate::config::SPEED_CAP;
use crate::config::VEL_CAP_ENTRY;
use crate::config::VEL_CAP_COHESION;
use crate::config::VEL_CAP_ALIGNMENT;
use crate::config::VEL_CAP_AVOIDANCE;
use crate::config::VEL_CAP_TURN;
use crate::config::VEL_CAP_BIAS;
use crate::config::FLOCK_CAP;
use crate::config::RANGE_CAP;
use crate::estimate::BoidEstimate;
use crate::estimate::EstimateView;

verus! {

/// Velocity after cohesion: pull toward the neighborhood center of mass,
/// with the velocity-matching term folded in as well (alignment then runs a
/// second time on its own; the compounding is intended tuning).
pub open spec fn cohered(b: Boid, e: EstimateView, c: Config) -> Boid {
    Boid {
        vx: (b.vx + div_trunc((e.xpos_avg - b.x) * c.centering_factor, SCALE as int)
            + div_trunc((e.xvel_avg - b.vx) * c.matching_factor, SCALE as int)) as i64,
        vy: (b.vy + div_trunc((e.ypos_avg - b.y) * c.centering_factor, SCALE as int)
            + div_trunc((e.yvel_avg - b.vy) * c.matching_factor, SCALE as int)) as i64,
        ..b
    }
}

/// Velocity after alignment: pull toward the neighborhood average velocity.
pub open spec fn aligned(b: Boid, e: EstimateView, c: Config) -> Boid {
    Boid {
        vx: (b.vx + div_trunc((e.xvel_avg - b.vx) * c.matching_factor, SCALE as int)) as i64,
        vy: (b.vy + div_trunc((e.yvel_avg - b.vy) * c.matching_factor, SCALE as int)) as i64,
        ..b
    }
}

/// Velocity after avoidance: push along the accumulated close offset.
pub open spec fn avoided(b: Boid, e: EstimateView, c: Config) -> Boid {
    Boid {
        vx: (b.vx + div_trunc(e.close_dx * c.avoidance_factor, SCALE as int)) as i64,
        vy: (b.vy + div_trunc(e.close_dy * c.avoidance_factor, SCALE as int)) as i64,
        ..b
    }
}

/// Velocity after edge-turning: within `EDGE_MARGIN` of an arena edge the
/// velocity component perpendicular to that edge is nudged inward; the two
/// axes act independently, so a corner nudges both.
pub open spec fn turned(b: Boid, a: ArenaBounds, c: Config) -> Boid {
    Boid {
        vx: (if b.x <= -a.half_width() + EDGE_MARGIN {
            b.vx + c.turn_factor
        } else if b.x >= a.half_width() - EDGE_MARGIN {
            b.vx - c.turn_factor
        } else {
            b.vx as int
        }) as i64,
        vy: (if b.y <= -a.half_height() + EDGE_MARGIN {
            b.vy + c.turn_factor
        } else if b.y >= a.half_height() - EDGE_MARGIN {
            b.vy - c.turn_factor
        } else {
            b.vy as int
        }) as i64,
        ..b
    }
}

/// Velocity after the role bias: a scout of group 1 blends its horizontal
/// velocity toward positive, one of group 2 toward negative; common agents
/// and unknown groups are untouched.
pub open spec fn biased(b: Boid, c: Config) -> Boid {
    match b.role {
        BoidRole::Scout(g) => if g == 1 {
            Boid {
                vx: (div_trunc(b.vx * (SCALE - c.bias), SCALE as int) + c.bias) as i64,
                ..b
            }
        } else if g == 2 {
            Boid {
                vx: (div_trunc(b.vx * (SCALE - c.bias), SCALE as int) - c.bias) as i64,
                ..b
            }
        } else {
            b
        },
        BoidRole::Common => b,
    }
}

/// Cohesion rule: move toward the center of mass of the visual-range
/// neighborhood (with the folded-in velocity-matching term).
pub fn apply_cohesion(boid: &mut Boid, estimate: &BoidEstimate, cfg: &Config)
    requires
        cfg.valid(),
        iabs(old(boid).x as int) <= POS_CAP,
        iabs(old(boid).y as int) <= POS_CAP,
        iabs(old(boid).vx as int) <= VEL_CAP_ENTRY,
        iabs(old(boid).vy as int) <= VEL_CAP_ENTRY,
        iabs(estimate@.xpos_avg) <= POS_CAP,
        iabs(estimate@.ypos_avg) <= POS_CAP,
        iabs(estimate@.xvel_avg) <= SPEED_CAP,
        iabs(estimate@.yvel_avg) <= SPEED_CAP,
    ensures
        *final(boid) == cohered(*old(boid), estimate@, *cfg),
        iabs(final(boid).vx as int) <= VEL_CAP_COHESION,
        iabs(final(boid).vy as int) <= VEL_CAP_COHESION,
{
    let dpx = estimate.xpos_avg - boid.x;
    let dpy = estimate.ypos_avg - boid.y;
    let dvx = estimate.xvel_avg - boid.vx;
    let dvy = estimate.yvel_avg - boid.vy;
    proof {
        assert(iabs(dpx * cfg.centering_factor) <= 2_000_000_000_000
            && iabs(dpy * cfg.centering_factor) <= 2_000_000_000_000
            && iabs(dvx * cfg.matching_factor) <= 20_000_000_000
            && iabs(dvy * cfg.matching_factor) <= 20_000_000_000) by (nonlinear_arith)
            requires
                -200_000_000 <= dpx <= 200_000_000,
                -200_000_000 <= dpy <= 200_000_000,
                -2_000_000 <= dvx <= 2_000_000,
                -2_000_000 <= dvy <= 2_000_000,
                0 <= cfg.centering_factor <= 10_000,
                0 <= cfg.matching_factor <= 10_000,
        ;
        lemma_div_trunc_bound(dpx * cfg.centering_factor, SCALE as int);
        lemma_div_trunc_bound(dpy * cfg.centering_factor, SCALE as int);
        lemma_div_trunc_bound(dvx * cfg.matching_factor, SCALE as int);
        lemma_div_trunc_bound(dvy * cfg.matching_factor, SCALE as int);
    }
    boid.vx = boid.vx + div_trunc_i64(dpx * cfg.centering_factor, SCALE)
        + div_trunc_i64(dvx * cfg.matching_factor, SCALE);
    boid.vy = boid.vy + div_trunc_i64(dpy * cfg.centering_factor, SCALE)
        + div_trunc_i64(dvy * cfg.matching_factor, SCALE);
}

/// Alignment rule: match the average velocity of the visual-range
/// neighborhood (the standalone second application).
pub fn apply_alignment(boid: &mut Boid, estimate: &BoidEstimate, cfg: &Config)
    requires
        cfg.valid(),
        iabs(old(boid).vx as int) <= VEL_CAP_COHESION,
        iabs(old(boid).vy as int) <= VEL_CAP_COHESION,
        iabs(estimate@.xvel_avg) <= SPEED_CAP,
        iabs(estimate@.yvel_avg) <= SPEED_CAP,
    ensures
        *final(boid) == aligned(*old(boid), estimate@, *cfg),
        iabs(final(boid).vx as int) <= VEL_CAP_ALIGNMENT,
        iabs(final(boid).vy as int) <= VEL_CAP_ALIGNMENT,
{
    let dvx = estimate.xvel_avg - boid.vx;
    let dvy = estimate.yvel_avg - boid.vy;
    proof {
        assert(iabs(dvx * cfg.matching_factor) <= 3_010_000_000_000
            && iabs(dvy * cfg.matching_factor) <= 3_010_000_000_000) by (nonlinear_arith)
            requires
                -301_000_000 <= dvx <= 301_000_000,
                -301_000_000 <= dvy <= 301_000_000,
                0 <= cfg.matching_factor <= 10_000,
        ;
        lemma_div_trunc_bound(dvx * cfg.matching_factor, SCALE as int);
        lemma_div_trunc_bound(dvy * cfg.matching_factor, SCALE as int);
    }
    boid.vx = boid.vx + div_trunc_i64(dvx * cfg.matching_factor, SCALE);
    boid.vy = boid.vy + div_trunc_i64(dvy * cfg.matching_factor, SCALE);
}

/// Avoidance rule: move away along the offset accumulated from agents
/// inside the protected range.
pub fn apply_avoidance(boid: &mut Boid, estimate: &BoidEstimate, cfg: &Config)
    requires
        cfg.valid(),
        iabs(old(boid).vx as int) <= VEL_CAP_ALIGNMENT,
        iabs(old(boid).vy as int) <= VEL_CAP_ALIGNMENT,
        iabs(estimate@.close_dx) <= FLOCK_CAP * RANGE_CAP,
        iabs(estimate@.close_dy) <= FLOCK_CAP * RANGE_CAP,
    ensures
        *final(boid) == avoided(*old(boid), estimate@, *cfg),
        iabs(final(boid).vx as int) <= VEL_CAP_AVOIDANCE,
        iabs(final(boid).vy as int) <= VEL_CAP_AVOIDANCE,
{
    proof {
        assert(iabs(estimate@.close_dx * cfg.avoidance_factor) <= 100_000_000_000_000_000
            && iabs(estimate@.close_dy * cfg.avoidance_factor)
            <= 100_000_000_000_000_000) by (nonlinear_arith)
            requires
                -10_000_000_000_000 <= estimate@.close_dx <= 10_000_000_000_000,
                -10_000_000_000_000 <= estimate@.close_dy <= 10_000_000_000_000,
                0 <= cfg.avoidance_factor <= 10_000,
        ;
        lemma_div_trunc_bound(estimate@.close_dx * cfg.avoidance_factor, SCALE as int);
        lemma_div_trunc_bound(estimate@.close_dy * cfg.avoidance_factor, SCALE as int);
    }
    boid.vx = boid.vx + div_trunc_i64(estimate.close_dx * cfg.avoidance_factor, SCALE);
    boid.vy = boid.vy + div_trunc_i64(estimate.close_dy * cfg.avoidance_factor, SCALE);
}

/// Edge-turning: nudge the velocity inward near each arena edge, each axis
/// on its own.
pub fn turn_if_edge(boid: &mut Boid, bounds: &ArenaBounds, cfg: &Config)
    requires
        cfg.valid(),
        bounds.valid(),
        iabs(old(boid).vx as int) <= VEL_CAP_AVOIDANCE,
        iabs(old(boid).vy as int) <= VEL_CAP_AVOIDANCE,
    ensures
        *final(boid) == turned(*old(boid), *bounds, *cfg),
        iabs(final(boid).vx as int) <= VEL_CAP_TURN,
        iabs(final(boid).vy as int) <= VEL_CAP_TURN,
{
    let half_w = bounds.width / 2;
    let half_h = bounds.height / 2;
    if boid.x <= -half_w + EDGE_MARGIN {
        boid.vx = boid.vx + cfg.turn_factor;
    } else if boid.x >= half_w - EDGE_MARGIN {
        boid.vx = boid.vx - cfg.turn_factor;
    }
    if boid.y <= -half_h + EDGE_MARGIN {
        boid.vy = boid.vy + cfg.turn_factor;
    } else if boid.y >= half_h - EDGE_MARGIN {
        boid.vy = boid.vy - cfg.turn_factor;
    }
}

/// Role bias: scouts drift horizontally toward their group's side.
pub fn apply_bias(boid: &mut Boid, cfg: &Config)
    requires
        cfg.valid(),
        iabs(old(boid).vx as int) <= VEL_CAP_TURN,
        iabs(old(boid).vy as int) <= VEL_CAP_TURN,
    ensures
        *final(boid) == biased(*old(boid), *cfg),
        iabs(final(boid).vx as int) <= VEL_CAP_BIAS,
        iabs(final(boid).vy as int) <= VEL_CAP_BIAS,
{
    let vx0 = boid.vx;
    proof {
        assert(iabs(vx0 * (SCALE - cfg.bias)) <= 120_000_000_000_000_000) by (nonlinear_arith)
            requires
                -12_000_000_000_000 <= vx0 <= 12_000_000_000_000,
                0 <= SCALE - cfg.bias <= 10_000,
        ;
        lemma_div_trunc_bound(vx0 * (SCALE - cfg.bias), SCALE as int);
    }
    match boid.role {
        BoidRole::Scout(1) => {
            boid.vx = div_trunc_i64(vx0 * (SCALE - cfg.bias), SCALE) + cfg.bias;
        },
        BoidRole::Scout(2) => {
            boid.vx = div_trunc_i64(vx0 * (SCALE - cfg.bias), SCALE) - cfg.bias;
        },
        _ => {},
    }
}

} // verus!
