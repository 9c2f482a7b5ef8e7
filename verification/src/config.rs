//! Tunable simulation parameters and arena bounds, with the numeric caps
//! that keep every step of the fixed-point pipeline inside `i64`.

use vstd::prelude::*;
use crate::math::SCALE;
use crate::math::iabs;

verus! {

/// Largest coordinate magnitude the model admits (10,000 distance units).
pub const POS_CAP: i64 = 100_000_000;

/// Largest perception radius (1,000 distance units).
pub const RANGE_CAP: i64 = 10_000_000;

/// Largest speed bound (100 distance units per tick).
pub const SPEED_CAP: i64 = 1_000_000;

/// Largest flock one step is specified for.
pub const FLOCK_CAP: usize = 1_000_000;

/// Distance from an arena edge inside which edge-turning fires (200 units).
pub const EDGE_MARGIN: i64 = 2_000_000;

/// Velocity-component cap on entry to the steering stage.
pub const VEL_CAP_ENTRY: i64 = 1_000_000;

/// Velocity-component cap after the cohesion rule.
pub const VEL_CAP_COHESION: i64 = 300_000_000;

/// Velocity-component cap after the alignment rule.
pub const VEL_CAP_ALIGNMENT: i64 = 700_000_000;

/// Velocity-component cap after the avoidance rule.
pub const VEL_CAP_AVOIDANCE: i64 = 11_000_000_000_000;

/// Velocity-component cap after edge-turning.
pub const VEL_CAP_TURN: i64 = 12_000_000_000_000;

/// Velocity-component cap after the role bias, the largest value the speed
/// normalizer must accept.
pub const VEL_CAP_BIAS: i64 = 13_000_000_000_000;

/// Global steering constants, fixed for a whole simulation. Ranges and
/// speeds are fixed-point distances (times `SCALE`); the factors are
/// fixed-point fractions of `SCALE`.
#[derive(Clone, Copy, Debug, PartialEq, Eq, Structural)]
pub struct Config {
    /// Radius within which neighbors feed cohesion and alignment.
    pub visual_range: i64,
    /// Radius within which neighbors are too close and feed avoidance.
    pub protected_range: i64,
    /// Cohesion gain: pull toward the neighborhood center of mass.
    pub centering_factor: i64,
    /// Alignment gain: pull toward the neighborhood average velocity.
    pub matching_factor: i64,
    /// Separation gain applied to the accumulated close offset.
    pub avoidance_factor: i64,
    /// Velocity nudge applied per axis near an arena edge.
    pub turn_factor: i64,
    /// Lower end of the allowed speed band.
    pub min_speed: i64,
    /// Upper end of the allowed speed band.
    pub max_speed: i64,
    /// Horizontal drift blended into a scout's velocity.
    pub bias: i64,
}

impl Config {
    /// Ranges, factors and speeds sit inside the caps the arithmetic of the
    /// pipeline is proved for.
    pub open spec fn valid(self) -> bool {
        &&& 0 <= self.protected_range <= self.visual_range <= RANGE_CAP
        &&& 0 <= self.centering_factor <= SCALE
        &&& 0 <= self.matching_factor <= SCALE
        &&& 0 <= self.avoidance_factor <= SCALE
        &&& 0 <= self.turn_factor <= SPEED_CAP
        &&& 1 <= self.min_speed <= self.max_speed <= SPEED_CAP
        &&& 0 <= self.bias <= SCALE
    }
}

/// The standard tuning: vision 50 units, isolation 10 units, speed band
/// 5.5 to 6 units per tick, and the stock steering gains.
pub open spec fn standard_config() -> Config {
    Config {
        visual_range: 500_000,
        protected_range: 100_000,
        centering_factor: 5,
        matching_factor: 1_500,
        avoidance_factor: 1_000,
        turn_factor: 10_000,
        min_speed: 55_000,
        max_speed: 60_000,
        bias: 500,
    }
}

impl Default for Config {
    /// The standard tuning, which is valid.
    fn default() -> (c: Config)
        ensures
            c == standard_config(),
            c.valid(),
    {
        Config {
            visual_range: 500_000,
            protected_range: 100_000,
            centering_factor: 5,
            matching_factor: 1_500,
            avoidance_factor: 1_000,
            turn_factor: 10_000,
            min_speed: 55_000,
            max_speed: 60_000,
            bias: 500,
        }
    }
}

/// Arena extents: the arena spans `[-width / 2, width / 2]` by
/// `[-height / 2, height / 2]` in fixed-point world coordinates.
#[derive(Clone, Copy, Debug, PartialEq, Eq, Structural)]
pub struct ArenaBounds {
    pub width: i64,
    pub height: i64,
}

impl ArenaBounds {
    /// Extents are nonnegative and small enough that every clamped
    /// coordinate stays within `POS_CAP`.
    pub open spec fn valid(self) -> bool {
        &&& 0 <= self.width <= 2 * POS_CAP
        &&& 0 <= self.height <= 2 * POS_CAP
    }

    /// Positive half-extent on the x axis.
    pub open spec fn half_width(self) -> int {
        self.width as int / 2
    }

    /// Positive half-extent on the y axis.
    pub open spec fn half_height(self) -> int {
        self.height as int / 2
    }
}

} // verus!
