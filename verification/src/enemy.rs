//! Per-entity data the core reads and writes: the enemy identity, the
//! motion component, the combined per-enemy record a tick works on, and
//! the spawn requests a tick hands back to the host.

use vstd::prelude::*;

use crate::geometry::{abs_val, in_world, Vec2, SPEED_BOUND};

verus! {

/// Hit points a freshly spawned enemy starts with.
pub const ENEMY_START_HP: u32 = 120;

/// An enemy's own state: health and whether it currently sees the player.
#[derive(Clone, Copy, Debug, PartialEq, Eq, Structural)]
pub struct Enemy {
    pub hp: u32,
    pub has_player_in_sight: bool,
}

impl Default for Enemy {
    /// A fresh enemy: full health, player not in sight.
    fn default() -> (e: Enemy)
        ensures
            e.hp == ENEMY_START_HP,
            !e.has_player_in_sight,
    {
        Enemy { hp: ENEMY_START_HP, has_player_in_sight: false }
    }
}

/// A motion component: velocity and acceleration in units per second,
/// with optional speed floor and ceiling, all applied to the position by
/// the host's integration step.
#[derive(Clone, Copy, Debug, PartialEq, Eq)]
pub struct Motion {
    pub vel: Vec2,
    pub acc: Vec2,
    pub min_vel: Option<i64>,
    pub max_vel: Option<i64>,
}

impl Default for Motion {
    /// A resting motion: no velocity, no acceleration, no speed bounds.
    fn default() -> (m: Motion)
        ensures
            m == (Motion {
                vel: Vec2 { x: 0, y: 0 },
                acc: Vec2 { x: 0, y: 0 },
                min_vel: None,
                max_vel: None,
            }),
    {
        Motion { vel: Vec2 { x: 0, y: 0 }, acc: Vec2 { x: 0, y: 0 }, min_vel: None, max_vel: None }
    }
}

/// A velocity the steering rules may leave on an enemy: each component is
/// bounded by the largest speed the core ever sets.
pub open spec fn vel_ok(v: Vec2) -> bool {
    abs_val(v.x as int) <= SPEED_BOUND && abs_val(v.y as int) <= SPEED_BOUND
}

/// One enemy as a tick sees it: identity, position and motion.
#[derive(Clone, Copy, Debug, PartialEq, Eq)]
pub struct EnemyRecord {
    pub enemy: Enemy,
    pub pos: Vec2,
    pub motion: Motion,
}

/// A record the steering rules accept: position inside the world and a
/// velocity the rules could themselves have set.
pub open spec fn wf_record(r: EnemyRecord) -> bool {
    in_world(r.pos) && vel_ok(r.motion.vel)
}

/// Which texture a spawn request should be drawn with.
#[derive(Clone, Copy, Debug, PartialEq, Eq, Structural)]
pub enum SpriteKey {
    PenguinFront,
    Bubble,
}

impl SpriteKey {
    /// The file name the host registered the texture under.
    pub fn file_name(&self) -> (s: &'static str)
        ensures
            *self == SpriteKey::PenguinFront ==> s@ == "penguinFront.png"@,
            *self == SpriteKey::Bubble ==> s@ == "bubble.png"@,
    {
        match self {
            SpriteKey::PenguinFront => "penguinFront.png",
            SpriteKey::Bubble => "bubble.png",
        }
    }
}

/// A flip-book animation descriptor, times in milliseconds.
#[derive(Clone, Copy, Debug, PartialEq, Eq, Structural)]
pub struct Animation {
    pub total_frames: u32,
    pub max_count_till_next_frame_ms: u32,
    pub frame_life_time_count_ms: u32,
    pub current_frame: u32,
}

/// A request to create one projectile entity.
#[derive(Clone, Copy, Debug, PartialEq, Eq)]
pub struct ProjectileSpawn {
    pub pos: Vec2,
    pub motion: Motion,
    pub sprite: SpriteKey,
    pub animation: Animation,
}

/// A request to create one enemy entity.
#[derive(Clone, Copy, Debug, PartialEq, Eq)]
pub struct EnemySpawn {
    pub pos: Vec2,
    pub enemy: Enemy,
    pub motion: Motion,
    pub sprite: SpriteKey,
    pub animation: Animation,
}

} // verus!
