//! Position integration: apply one full velocity step and clamp the
//! position to the arena's half-extents.

use vstd::prelude::*;
use crate::math::iabs;
use crate::boid::Boid;
use crate::config::ArenaBounds;
use crate::config::POS_CAP;
use crate::config::SPEED_CAP;

verus! {

/// Clamp a coordinate to `[-half, half]`. A value above the positive bound
/// snaps to the bound; one at or below the negative bound snaps to the
/// negative bound: the comparison is deliberately asymmetric.
pub open spec fn clamp_coord(p: int, half: int) -> int {
    if p > half {
        half
    } else if p <= -half {
        -half
    } else {
        p
    }
}

/// Agent after integration: position advanced by one velocity step, then
/// clamped componentwise to the arena.
pub open spec fn integrated(b: Boid, a: ArenaBounds) -> Boid {
    Boid {
        x: clamp_coord(b.x + b.vx, a.half_width()) as i64,
        y: clamp_coord(b.y + b.vy, a.half_height()) as i64,
        ..b
    }
}

/// Advance the agent by one velocity step and clamp it into the arena. The
/// resulting position always lies within both half-extents.
pub fn compute_new_position(boid: &mut Boid, bounds: &ArenaBounds)
    requires
        bounds.valid(),
        iabs(old(boid).x as int) <= POS_CAP,
        iabs(old(boid).y as int) <= POS_CAP,
        iabs(old(boid).vx as int) <= SPEED_CAP,
        iabs(old(boid).vy as int) <= SPEED_CAP,
    ensures
        *final(boid) == integrated(*old(boid), *bounds),
        -bounds.half_width() <= final(boid).x as int <= bounds.half_width(),
        -bounds.half_height() <= final(boid).y as int <= bounds.half_height(),
        iabs(final(boid).x as int) <= POS_CAP,
        iabs(final(boid).y as int) <= POS_CAP,
{
    let half_w = bounds.width / 2;
    let half_h = bounds.height / 2;
    boid.x = boid.x + boid.vx;
    boid.y = boid.y + boid.vy;
    if boid.x > half_w {
        boid.x = half_w;
    } else if boid.x <= -half_w {
        boid.x = -half_w;
    }
    if boid.y > half_h {
        boid.y = half_h;
    } else if boid.y <= -half_h {
        boid.y = -half_h;
    }
}

} // verus!
