//! One simulated agent: position, velocity and role.

use vstd::prelude::*;
use crate::math::iabs;
use crate::config::POS_CAP;
use crate::config::SPEED_CAP;

verus! {

/// What kind of boid an agent is; fixed at creation.
#[derive(Clone, Copy, Debug, PartialEq, Eq, Structural)]
pub enum BoidRole {
    /// Follows the flock with no extra drift.
    Common,
    /// Drifts horizontally while scouting: group 1 to the right, group 2 to
    /// the left. Any other group value behaves like `Common`.
    Scout(u8),
}

/// One agent. Coordinates and velocity components are fixed-point `i64`
/// world units (times `math::SCALE`); velocity is applied once per tick.
#[derive(Clone, Copy, Debug, PartialEq, Eq, Structural)]
pub struct Boid {
    pub x: i64,
    pub y: i64,
    pub vx: i64,
    pub vy: i64,
    pub role: BoidRole,
}

impl Boid {
    /// Between ticks an agent sits within the coordinate cap and moves no
    /// faster than the speed cap on each axis.
    pub open spec fn valid(self) -> bool {
        &&& iabs(self.x as int) <= POS_CAP
        &&& iabs(self.y as int) <= POS_CAP
        &&& iabs(self.vx as int) <= SPEED_CAP
        &&& iabs(self.vy as int) <= SPEED_CAP
    }

    /// A new agent starts at the given position with zero velocity.
    pub fn new(x: i64, y: i64, role: BoidRole) -> (b: Boid)
        ensures
            b == (Boid { x, y, vx: 0, vy: 0, role }),
    {
        Boid { x, y, vx: 0, vy: 0, role }
    }
}

} // verus!
