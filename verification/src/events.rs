//! The outbound signals a tick produces for the rendering and audio
//! collaborators: splash effects, floating reward text, penalty waves,
//! boost-shot projectiles, level-up notices and sound cues.
//!
//! Signals are appended to a queue during a tick, in emission order, and
//! drained by the presentation layer after the tick.

use vstd::prelude::*;

use crate::fruit::FruitType;
use crate::sound::SoundType;

verus! {

/// A discrete attack by the player at a position, tested against every
/// live fruit.
#[derive(Clone, Copy, Debug, PartialEq, Eq, Structural)]
pub struct ChefHitEvent {
    pub x: i64,
    pub y: i64,
}

/// A splash effect at a position, colored by the fruit that was struck.
#[derive(Clone, Copy, Debug, PartialEq, Eq, Structural)]
pub struct SplashEvent {
    pub x: i64,
    pub y: i64,
    pub fruit_type: FruitType,
}

/// The floating reward messages.
#[derive(Clone, Copy, Debug, PartialEq, Eq, Structural)]
pub enum RewardText {
    BoostBonus,
    LifeBonus,
}

impl RewardText {
    /// The text shown for the reward.
    pub fn message(&self) -> (r: &'static str)
        ensures
            r@ == spec_reward_message(*self),
    {
        match self {
            RewardText::BoostBonus => "+1 boost!",
            RewardText::LifeBonus => "+1 live!",
        }
    }
}

pub open spec fn spec_reward_message(t: RewardText) -> Seq<char> {
    match t {
        RewardText::BoostBonus => "+1 boost!"@,
        RewardText::LifeBonus => "+1 live!"@,
    }
}

/// Floating reward text rising from a slicing position.
#[derive(Clone, Copy, Debug, PartialEq, Eq, Structural)]
pub struct TextEvent {
    pub text: RewardText,
    pub x: i64,
    pub y: i64,
}

/// A penalty wave at the horizontal position where a fruit was missed.
#[derive(Clone, Copy, Debug, PartialEq, Eq, Structural)]
pub struct WaveEvent(pub i64);

/// A boost projectile from a sliced fruit down to the player.
#[derive(Clone, Copy, Debug, PartialEq, Eq, Structural)]
pub struct BoostEvent {
    pub source_x: i64,
    pub source_y: i64,
    pub dest_x: i64,
    pub dest_y: i64,
}

/// A difficulty level-up notice.
#[derive(Clone, Copy, Debug, PartialEq, Eq, Structural)]
pub struct LevelUpdate {
    pub number: u32,
}

/// One outbound signal, tagged by kind, in emission order.
#[derive(Clone, Copy, Debug, PartialEq, Eq, Structural)]
pub enum Signal {
    Sound(SoundType),
    FruitSound(FruitType),
    Splash(SplashEvent),
    Text(TextEvent),
    Wave(WaveEvent),
    BoostShot(BoostEvent),
    Level(LevelUpdate),
}

} // verus!
