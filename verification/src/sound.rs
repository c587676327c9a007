//! Sound categories emitted by the simulation and the audio files each one
//! plays.

#![allow(non_camel_case_types)]

use vstd::prelude::*;

use crate::fruit::FruitType;

verus! {

/// The game-wide sound cues, apart from the per-fruit slice sounds.
#[derive(Clone, Copy, PartialEq, Eq, Debug, Structural)]
pub enum SoundType {
    SLASH,
    HIT,
    PENALTY,
    BOOST,
    BOOST_HIT,
}

/// A request to play one audio file.
#[derive(Clone, Copy, Debug)]
pub struct SoundEvent {
    pub sound: &'static str,
}

/// The audio file behind each game-wide sound cue.
pub open spec fn spec_sound_file(sound_type: SoundType) -> Seq<char> {
    match sound_type {
        SoundType::SLASH => "audio/slash.wav"@,
        SoundType::HIT => "audio/hit.wav"@,
        SoundType::PENALTY => "audio/penalty.wav"@,
        SoundType::BOOST => "audio/boost.wav"@,
        SoundType::BOOST_HIT => "audio/critical.wav"@,
    }
}

/// The audio file behind each fruit's slice sound.
pub open spec fn spec_fruit_sound_file(fruit: FruitType) -> Seq<char> {
    match fruit {
        FruitType::APPLE => "audio/apple-slice.wav"@,
        FruitType::ORANGE => "audio/orange-slice.wav"@,
        FruitType::STRAWBERRY => "audio/strawberry-slice.wav"@,
        FruitType::PINEAPPLE => "audio/pineapple.wav"@,
        FruitType::WATERMELON => "audio/watermelon.wav"@,
        FruitType::BANANA => "audio/banana.wav"@,
        FruitType::POME => "audio/pome.wav"@,
    }
}

impl SoundEvent {
    /// The playback request for a game-wide sound cue.
    pub fn sound(sound_type: SoundType) -> (r: SoundEvent)
        ensures
            r.sound@ == spec_sound_file(sound_type),
    {
        let file = match sound_type {
            SoundType::SLASH => "audio/slash.wav",
            SoundType::HIT => "audio/hit.wav",
            SoundType::PENALTY => "audio/penalty.wav",
            SoundType::BOOST => "audio/boost.wav",
            SoundType::BOOST_HIT => "audio/critical.wav",
        };
        SoundEvent { sound: file }
    }

    /// The playback request for a fruit's slice sound.
    pub fn fruit_sound(fruit: FruitType) -> (r: SoundEvent)
        ensures
            r.sound@ == spec_fruit_sound_file(fruit),
    {
        let file = match fruit {
            FruitType::APPLE => "audio/apple-slice.wav",
            FruitType::ORANGE => "audio/orange-slice.wav",
            FruitType::STRAWBERRY => "audio/strawberry-slice.wav",
            FruitType::PINEAPPLE => "audio/pineapple.wav",
            FruitType::WATERMELON => "audio/watermelon.wav",
            FruitType::BANANA => "audio/banana.wav",
            FruitType::POME => "audio/pome.wav",
        };
        SoundEvent { sound: file }
    }
}

} // verus!
