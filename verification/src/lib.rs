//! The simulation core of a fruit-slicing arcade game: fruit spawning,
//! falling and despawning, hit resolution between the player's attack and
//! live fruit, the boost ability, difficulty progression, the session state
//! with its loss condition, and the persistent best-score record.
//!
//! Positions are held in thousandths of a world unit, speeds in world units
//! per second, and time in milliseconds, so that every rule of the game is
//! exact integer arithmetic.

pub mod boost;
pub mod chef;
pub mod components;
pub mod events;
pub mod fruit;
pub mod global;
pub mod level;
pub mod random;
pub mod record;
pub mod session;
pub mod spawn;
pub mod sound;
pub mod splash;
