//! Frame-stepped simulation core of a 2D arcade shooter.
//!
//! The core advances enemy flight paths along drifting elliptical
//! trajectories, integrates straight-line motion for projectiles and the
//! player craft, detects axis-aligned collisions, and drives the
//! spawn/despawn/respawn/invincibility lifecycle of all transient
//! entities.  Rendering, audio, asset loading and raw input polling are
//! external collaborators: they feed the core plain values (frame delta,
//! key states, window extent) and consume its entity requests.
//!
//! All quantities are fixed-point integers: positions, sizes and radii in
//! thousandths of a pixel (milli-pixels), speeds in milli-pixels per
//! second, angles in milliradians, scale factors in per-mille, and time
//! in milliseconds.  This lets every rule of the simulation be stated and
//! checked exactly.

use vstd::prelude::*;

pub mod collision;
pub mod components;
pub mod enemy;
pub mod explosion;
pub mod formation;
pub mod frame;
pub mod motion;
pub mod num;
pub mod player;
mod rng;
pub mod store;
pub mod trig;

verus! {

// Sprite extents (milli-pixels), before scaling.
pub const PLAYER_SIZE_W: i64 = 144_000;
pub const PLAYER_SIZE_H: i64 = 75_000;
pub const PLAYER_LASER_SIZE_W: i64 = 9_000;
pub const PLAYER_LASER_SIZE_H: i64 = 54_000;
pub const ENEMY_SIZE_W: i64 = 144_000;
pub const ENEMY_SIZE_H: i64 = 75_000;
pub const ENEMY_LASER_SIZE_W: i64 = 17_000;
pub const ENEMY_LASER_SIZE_H: i64 = 55_000;

/// Number of frames in the explosion sprite sheet.
pub const EXPLOSION_LEN: u32 = 16;
/// Interval of the repeating explosion animation timer, in milliseconds.
pub const EXPLOSION_TICK_MS: i64 = 50;

/// Uniform sprite scale, in per-mille.
pub const SPRITE_SCALE: i64 = 500;

/// Base movement speed, in milli-pixels per second.
pub const BASE_SPEED: i64 = 500_000;
/// Speed of the extra player steering pass, in milli-pixels per second.
pub const PLAYER_SPEED: i64 = 1_000;

/// Delay between the player's death and its respawn, in milliseconds.
pub const PLAYER_RESPAWN_DELAY_MS: i64 = 2_000;
/// Duration of the post-respawn invincibility window, in milliseconds.
pub const INVINCIBLE_MS: i64 = 2_000;
/// Population cap for live enemies.
pub const ENEMY_MAX: u32 = 2;
/// Number of enemies issued against one formation template.
pub const FORMATION_MEMBERS_MAX: u32 = 2;

/// Margin around the playfield beyond which auto-despawning entities are
/// destroyed, in milli-pixels.
pub const DESPAWN_MARGIN: i64 = 200_000;

/// Largest position coordinate the store carries (milli-pixels).  Every
/// position write is clamped to this box; inside any real playfield the
/// clamp never engages.
pub const POS_BOUND: i64 = 10_000_000;

/// Largest frame delta a tick accepts, in milliseconds.
pub const DT_MAX_MS: i64 = 10_000;

/// Largest timestamp the lifecycle state accepts, in milliseconds.
pub const TIME_MAX_MS: i64 = 0x10_0000_0000_0000;

/// Playfield extent, in milli-pixels.
pub struct WinSize {
    pub w: i64,
    pub h: i64,
}

/// The window extents under which the core is defined: wide enough
/// that any collision-sized sprite fits between the side walls, tall
/// enough that the pivot band `[0, h/3 - 50px]` is non-empty (the
/// formation generator draws from that band and would otherwise face
/// an empty range, on which the draw panics), and small enough that no
/// coordinate arithmetic can overflow.
pub open spec fn win_ok(win: WinSize) -> bool {
    &&& 100_000 <= win.w <= POS_BOUND
    &&& 150_003 <= win.h <= POS_BOUND
}

} // verus!
