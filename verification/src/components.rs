//! Components attached to entities of the simulation store.
//!
//! Marker components are unit structs; data components carry fixed-point
//! integers (milli-pixels, per-mille scales, milliseconds).

use vstd::prelude::*;

verus! {

/// Direction of travel, in per-mille of a unit vector per axis.
#[derive(Clone, Copy, Debug, PartialEq, Eq)]
pub struct Velocity {
    pub x: i64,
    pub y: i64,
}

/// Flags an entity that the linear integrator moves; `auto_despawn`
/// destroys it once it leaves the playfield plus a fixed margin.
#[derive(Clone, Copy, Debug, PartialEq, Eq)]
pub struct Movable {
    pub auto_despawn: bool,
}

/// Marks a laser projectile.
#[derive(Clone, Copy, Debug, PartialEq, Eq)]
pub struct Laser;

/// Unscaled sprite extent used for collision, in milli-pixels.
#[derive(Clone, Copy, Debug, PartialEq, Eq)]
pub struct SpriteSize(pub (i64, i64));

impl From<(i64, i64)> for SpriteSize {
    fn from(val: (i64, i64)) -> (r: SpriteSize) {
        SpriteSize((val.0, val.1))
    }
}

impl vstd::std_specs::convert::FromSpecImpl<(i64, i64)> for SpriteSize {
    open spec fn obeys_from_spec() -> bool {
        true
    }

    open spec fn from_spec(val: (i64, i64)) -> SpriteSize {
        SpriteSize((val.0, val.1))
    }
}

/// Marks the player craft.
#[derive(Clone, Copy, Debug, PartialEq, Eq)]
pub struct Player;

/// Marks an entity fired by the player.
#[derive(Clone, Copy, Debug, PartialEq, Eq)]
pub struct FromPlayer;

/// Marks an enemy craft.
#[derive(Clone, Copy, Debug, PartialEq, Eq)]
pub struct Enemy;

/// Marks an entity fired by an enemy.
#[derive(Clone, Copy, Debug, PartialEq, Eq)]
pub struct FromEnemy;

/// Marks a live explosion animation.
#[derive(Clone, Copy, Debug, PartialEq, Eq)]
pub struct Explosion;

/// Marks a position where an explosion is due to appear, in milli-pixels.
#[derive(Clone, Copy, Debug, PartialEq, Eq)]
pub struct ExplosionToSpawn(pub (i64, i64, i64));

/// Repeating animation timer of an explosion: milliseconds elapsed since
/// the last frame advance, always below the tick interval.
#[derive(Clone, Copy, Debug, PartialEq, Eq)]
pub struct ExplosionTimer {
    pub elapsed_ms: i64,
}

impl Default for ExplosionTimer {
    fn default() -> (r: ExplosionTimer)
        ensures
            r.elapsed_ms == 0,
    {
        ExplosionTimer { elapsed_ms: 0 }
    }
}

/// Post-respawn shield: milliseconds left until the player is vulnerable
/// again.
#[derive(Clone, Copy, Debug, PartialEq, Eq)]
pub struct Invincible {
    pub remaining_ms: i64,
}

/// One confirmed enemy kill; consumed by the audio collaborator, one
/// sound cue each.
#[derive(Clone, Copy, Debug, PartialEq, Eq)]
pub struct EnemyExplosionEvent;

} // verus!
