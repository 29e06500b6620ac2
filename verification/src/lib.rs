//! Enemy-behavior core of a 2D action game: a per-frame simulation that
//! decides how enemies move, when they detect and pursue the player, when
//! they fire projectiles, and when new enemies are spawned.
//!
//! The core works on integer world coordinates (one unit of the host's
//! world space per unit here) and millisecond timers, so every rule is a
//! statement about plain integers. The host engine owns rendering, asset
//! loading and position integration; it hands this crate a snapshot of the
//! world each tick and materializes the spawn requests the tick returns.

pub mod enemy;
pub mod geometry;
pub mod grid;
mod rng;
pub mod systems;

pub use enemy::Animation;
pub use enemy::Enemy;
pub use enemy::EnemyRecord;
pub use enemy::EnemySpawn;
pub use enemy::Motion;
pub use enemy::ProjectileSpawn;
pub use enemy::SpriteKey;
pub use geometry::Vec2;
pub use grid::PassableTiles;
pub use systems::tick;
pub use systems::Attack;
pub use systems::Movement;
pub use systems::Spawner;
pub use systems::TickEffects;
