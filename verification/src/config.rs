//! Tunable simulation parameters and their documented bounds.
use vstd::prelude::*;

verus! {

/// Fixed-point scale: the real number 1.0 is stored as `FP`.
pub const FP: u32 = 1024;

/// Half of the fixed-point unit, used when rounding to the nearest cell.
pub const HALF_FP: u32 = FP / 2;

/// Hard maxima the storage is sized for.
pub const MAX_SIZE_X: u32 = 1024;
pub const MAX_SIZE_Y: u32 = 1024;
pub const MAX_AGENT_N: u32 = 999999;
pub const MAX_AGENT_SPEED: u32 = 3 * FP;
pub const MAX_AGENT_TURN: u32 = 360;
pub const MAX_SPAWN_RADIUS: u32 = MAX_SIZE_Y * FP;
pub const MAX_SENSOR_ANGLE: u32 = 360;
pub const MAX_SENSOR_DISTANCE: u32 = 10 * FP;
pub const MAX_SENSOR_SIZE: u32 = 5;
pub const MAX_TRAIL_WEIGHT: u32 = 500 * FP;
pub const MAX_TRAIL_DECAY: u32 = 10 * FP;
pub const MAX_TRAIL_DIFFUSE: u32 = FP;

/// Default settings: a 512x512 grid, 6000 agents at speed 1.0 with a turn
/// budget of 35 degrees, sensors 3.5 cells ahead at +-35 degrees with a
/// one-cell half-width, trails written at 255.0 and fading by 1.8 per tick
/// with a diffuse blend factor near 0.07.
pub const SIZE_X: u32 = 512;
pub const SIZE_Y: u32 = 512;
pub const AGENT_N: u32 = 6000;
pub const AGENT_SPEED: u32 = FP;
pub const AGENT_TURN: u32 = 35;
pub const SPAWN_RADIUS: u32 = 256 * FP;
pub const SENSOR_ANGLE: u32 = 35;
pub const SENSOR_DISTANCE: u32 = 3 * FP + FP / 2;
pub const SENSOR_SIZE: u32 = 1;
pub const TRAIL_WEIGHT: u32 = 255 * FP;
pub const TRAIL_DECAY: u32 = 9 * FP / 5;
pub const TRAIL_DIFFUSE: u32 = 7 * FP / 100;

/// Immutable-per-tick configuration of the simulation.
///
/// Every rate or size is a fixed-point integer (scale `FP`) except the grid
/// dimensions, counts and angles, which are plain integers; angles are whole
/// degrees.
#[derive(Clone, Copy, Debug, PartialEq, Eq, Structural)]
pub struct Settings {
    /// Grid dimensions, in cells.
    pub size_x: u32,
    pub size_y: u32,
    /// Number of currently active agents.
    pub agent_n: u32,
    /// Distance an agent covers per tick (scale `FP`).
    pub agent_speed: u32,
    /// Largest heading change a steering draw may apply, in degrees.
    pub agent_turn: u32,
    /// Radius of the circular-burst spawn pattern (scale `FP`).
    pub spawn_radius: u32,
    /// Angular offset of the side sensors, in degrees.
    pub sensor_angle: u32,
    /// How far ahead of the agent a sensor probes (scale `FP`).
    pub sensor_distance: u32,
    /// Half-width, in cells, of the square window a sensor sums over.
    pub sensor_size: u32,
    /// Value written into a cell on deposit (scale `FP`).
    pub trail_weight: u32,
    /// Amount subtracted from every cell per tick (scale `FP`).
    pub trail_decay: u32,
    /// Blend factor of the diffusion pass, in `[0, FP]` for `[0, 1]`.
    pub trail_diffuse: u32,
}

impl Settings {
    /// Every parameter lies within its documented `[min, max]` range.
    pub open spec fn valid(&self) -> bool {
        &&& 1 <= self.size_x <= MAX_SIZE_X
        &&& 1 <= self.size_y <= MAX_SIZE_Y
        &&& self.agent_n <= MAX_AGENT_N
        &&& self.agent_speed <= MAX_AGENT_SPEED
        &&& self.agent_turn <= MAX_AGENT_TURN
        &&& self.spawn_radius <= MAX_SPAWN_RADIUS
        &&& self.sensor_angle <= MAX_SENSOR_ANGLE
        &&& self.sensor_distance <= MAX_SENSOR_DISTANCE
        &&& self.sensor_size <= MAX_SENSOR_SIZE
        &&& self.trail_weight <= MAX_TRAIL_WEIGHT
        &&& self.trail_decay <= MAX_TRAIL_DECAY
        &&& self.trail_diffuse <= MAX_TRAIL_DIFFUSE
    }

    /// Number of cells of the active grid region.
    pub open spec fn cell_count(&self) -> int {
        self.size_x * self.size_y
    }

    /// The default configuration as a value.
    pub open spec fn initial() -> Settings {
        Settings {
            size_x: SIZE_X,
            size_y: SIZE_Y,
            agent_n: AGENT_N,
            agent_speed: AGENT_SPEED,
            agent_turn: AGENT_TURN,
            spawn_radius: SPAWN_RADIUS,
            sensor_angle: SENSOR_ANGLE,
            sensor_distance: SENSOR_DISTANCE,
            sensor_size: SENSOR_SIZE,
            trail_weight: TRAIL_WEIGHT,
            trail_decay: TRAIL_DECAY,
            trail_diffuse: TRAIL_DIFFUSE,
        }
    }

    /// Restore the agent parameters to their defaults.
    pub fn default_agents(&mut self)
        ensures
            *final(self) == (Settings {
                agent_n: AGENT_N,
                agent_speed: AGENT_SPEED,
                agent_turn: AGENT_TURN,
                ..*old(self)
            }),
    {
        self.agent_n = AGENT_N;
        self.agent_speed = AGENT_SPEED;
        self.agent_turn = AGENT_TURN;
    }

    /// Restore the sensor parameters to their defaults.
    pub fn default_sensor(&mut self)
        ensures
            *final(self) == (Settings {
                sensor_angle: SENSOR_ANGLE,
                sensor_distance: SENSOR_DISTANCE,
                sensor_size: SENSOR_SIZE,
                ..*old(self)
            }),
    {
        self.sensor_angle = SENSOR_ANGLE;
        self.sensor_distance = SENSOR_DISTANCE;
        self.sensor_size = SENSOR_SIZE;
    }

    /// Restore the trail parameters to their defaults.
    pub fn default_trail(&mut self)
        ensures
            *final(self) == (Settings {
                trail_weight: TRAIL_WEIGHT,
                trail_decay: TRAIL_DECAY,
                trail_diffuse: TRAIL_DIFFUSE,
                ..*old(self)
            }),
    {
        self.trail_weight = TRAIL_WEIGHT;
        self.trail_decay = TRAIL_DECAY;
        self.trail_diffuse = TRAIL_DIFFUSE;
    }
}

impl Default for Settings {
    /// The default configuration; it satisfies `valid`.
    fn default() -> (s: Settings)
        ensures
            s == Settings::initial(),
            s.valid(),
    {
        Settings {
            size_x: SIZE_X,
            size_y: SIZE_Y,
            agent_n: AGENT_N,
            agent_speed: AGENT_SPEED,
            agent_turn: AGENT_TURN,
            spawn_radius: SPAWN_RADIUS,
            sensor_angle: SENSOR_ANGLE,
            sensor_distance: SENSOR_DISTANCE,
            sensor_size: SENSOR_SIZE,
            trail_weight: TRAIL_WEIGHT,
            trail_decay: TRAIL_DECAY,
            trail_diffuse: TRAIL_DIFFUSE,
        }
    }
}

} // verus!
