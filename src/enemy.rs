//! Approaching enemies.
//!
//! Positions in the game are fixed-point numbers counted in thousandths of a
//! unit: a lateral offset of `1000` is the right edge of the view, a depth of
//! `100_000` is the spawn distance.
use vstd::prelude::*;

verus! {

/// One unit of offset or depth, in thousandths.
pub const UNIT: i64 = 1000;

/// Depth at which enemies appear.
pub const SPAWN_DEPTH: i64 = 100_000;

/// The kinds of enemy.
#[derive(Clone, Copy, Debug, PartialEq, Eq, Structural)]
pub enum EnemyType {
    Fighter,
}

/// An enemy approaching the camera.
#[derive(Clone, Copy, Debug)]
pub struct Enemy {
    /// Lateral offset, `-1000..=1000`.
    pub x: i64,
    /// Vertical offset, kept near the centre.
    pub y: i64,
    /// Depth: `0` is at the camera, `100_000` is the spawn distance.
    pub z: i64,
    /// What kind of enemy this is.
    pub kind: EnemyType,
}

/// The lateral offset of an enemy spawned from `seed`, in `-1000..1000`.
pub open spec fn spawn_x(seed: u64) -> int {
    (seed % 200) * 10 - UNIT
}

/// The vertical offset of an enemy spawned from `seed`, in `-250..250`.
pub open spec fn spawn_y(seed: u64) -> int {
    ((seed / 200) % 100) * 5 - 250
}

/// The enemy spawned from `seed`.
pub open spec fn spawned(seed: u64) -> Enemy {
    Enemy {
        x: spawn_x(seed) as i64,
        y: spawn_y(seed) as i64,
        z: SPAWN_DEPTH,
        kind: EnemyType::Fighter,
    }
}

/// The enemy moved `speed` closer to the camera.
pub open spec fn approached(e: Enemy, speed: int) -> Enemy {
    Enemy { z: (e.z - speed) as i64, ..e }
}

/// An enemy is visible while it is in front of the camera.
pub open spec fn visible(e: Enemy) -> bool {
    e.z > 0
}

impl Enemy {
    /// A fighter at the spawn distance, placed from `seed`.
    pub fn new(seed: u64) -> (r: Enemy)
        ensures
            r == spawned(seed),
            -UNIT <= r.x < UNIT,
            -250 <= r.y < 250,
    {
        let x: i64 = (seed % 200) as i64 * 10 - UNIT;
        let y: i64 = ((seed / 200) % 100) as i64 * 5 - 250;
        Enemy { x, y, z: SPAWN_DEPTH, kind: EnemyType::Fighter }
    }

    /// Move `speed` closer to the camera.
    pub fn update(&mut self, speed: i64)
        requires
            i64::MIN <= old(self).z - speed <= i64::MAX,
        ensures
            *final(self) == approached(*old(self), speed as int),
    {
        self.z = self.z - speed;
    }

    /// Whether the enemy is still in front of the camera.
    pub fn is_visible(&self) -> (r: bool)
        ensures
            r == visible(*self),
    {
        self.z > 0
    }
}

} // verus!
