//! Tuning constants and the screen/sprite geometry supplied at startup.
//!
//! Lengths are in micro-pixels (1 px = 1,000,000 units); speeds are in
//! micro-pixels per millisecond, so 300_000 is 300 px/s.

use vstd::prelude::*;

verus! {

/// Micro-pixels per screen pixel.
pub const SUBPIXELS_PER_PIXEL: i64 = 1_000_000;

/// Player horizontal speed: 300 px/s.
pub const PLAYER_SPEED: i64 = 300_000;

/// Bullet upward speed: 600 px/s.
pub const BULLET_SPEED: i64 = 600_000;

/// Swarm horizontal speed at round 1: 0.1 px/s.
pub const ALIEN_BASE_SPEED: i64 = 100;

/// How much the swarm speed grows per round: one fifth of the base speed.
pub const ALIEN_SPEED_STEP: i64 = 20;

/// Vertical descent on edge contact: 0.1 px.
pub const ALIEN_STEP_DOWN: i64 = 100_000;

/// Side margin that triggers swarm reversal: 10 px.
pub const EDGE_MARGIN: i64 = 10_000_000;

/// The floor sits this far above the bottom of the screen: 1 px.
pub const FLOOR_MARGIN: i64 = 1_000_000;

pub const ALIEN_ROWS: usize = 3;

pub const ALIEN_COLS: usize = 11;

pub const NUM_ALIENS: usize = 33;

/// Horizontal gap between aliens in the spawn grid: 12 px.
pub const GRID_H_GAP: i64 = 12_000_000;

/// Vertical gap between alien rows in the spawn grid: 10 px.
pub const GRID_V_GAP: i64 = 10_000_000;

/// Top edge of the spawn grid: 80 px.
pub const GRID_TOP: i64 = 80_000_000;

/// Fixed vertical position of the player ship: 500 px.
pub const PLAYER_START_Y: i64 = 500_000_000;

/// A tick never advances the simulation by more than one second, so a stall
/// in the host loop cannot teleport entities across the screen.
pub const DT_MAX_MS: u32 = 1000;

/// Horizontal travel saturates at this distance (2^50 micro-pixels, about a
/// billion screen widths) so that every tick is a total, overflow-free step;
/// play never comes near it.
pub const POS_LIMIT: i64 = 1_125_899_906_842_624;

/// Upper bound on any configured screen or sprite dimension: 2^40
/// micro-pixels, about a million screen widths.
pub const DIM_LIMIT: i64 = 1_099_511_627_776;

/// Upper bound on the magnitude of the shared swarm velocity: 2^40.
pub const DX_LIMIT: i64 = 1_099_511_627_776;

/// Screen bounds and sprite footprints, fixed at startup. The simulation is
/// agnostic to pixel content and consumes only these extents.
#[derive(Clone, Copy, Debug)]
pub struct Config {
    pub screen_w: i64,
    pub screen_h: i64,
    pub player_w: i64,
    pub player_h: i64,
    pub bullet_w: i64,
    pub bullet_h: i64,
    pub alien_w: i64,
    pub alien_h: i64,
}

/// A usable configuration: positive bounded extents, a player that fits the
/// screen, and a spawn grid that fits between the screen edges and above the
/// floor.
pub open spec fn wf_config(cfg: Config) -> bool {
    &&& 0 < cfg.screen_w <= DIM_LIMIT
    &&& 0 < cfg.screen_h <= DIM_LIMIT
    &&& 0 < cfg.player_w <= DIM_LIMIT
    &&& 0 < cfg.player_h <= DIM_LIMIT
    &&& 0 < cfg.bullet_w <= DIM_LIMIT
    &&& 0 < cfg.bullet_h <= DIM_LIMIT
    &&& 0 < cfg.alien_w <= DIM_LIMIT
    &&& 0 < cfg.alien_h <= DIM_LIMIT
    &&& cfg.player_w <= cfg.screen_w
    &&& (ALIEN_COLS as int) * (cfg.alien_w + GRID_H_GAP) <= cfg.screen_w
    &&& GRID_TOP + (ALIEN_ROWS as int) * (cfg.alien_h + GRID_V_GAP) + FLOOR_MARGIN
        <= cfg.screen_h
}

impl Config {
    /// Runtime check of the same conditions, for callers outside the
    /// verified world.
    pub fn is_well_formed(&self) -> (r: bool)
        ensures
            r == wf_config(*self),
    {
        0 < self.screen_w && self.screen_w <= DIM_LIMIT && 0 < self.screen_h
            && self.screen_h <= DIM_LIMIT && 0 < self.player_w && self.player_w <= DIM_LIMIT
            && 0 < self.player_h && self.player_h <= DIM_LIMIT && 0 < self.bullet_w
            && self.bullet_w <= DIM_LIMIT && 0 < self.bullet_h && self.bullet_h <= DIM_LIMIT
            && 0 < self.alien_w && self.alien_w <= DIM_LIMIT && 0 < self.alien_h
            && self.alien_h <= DIM_LIMIT && self.player_w <= self.screen_w
            && 11 * (self.alien_w + GRID_H_GAP) <= self.screen_w
            && GRID_TOP + 3 * (self.alien_h + GRID_V_GAP) + FLOOR_MARGIN <= self.screen_h
    }
}

} // verus!
