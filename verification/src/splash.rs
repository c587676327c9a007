//! The splash effect's color class, chosen by the struck fruit's type.

use vstd::prelude::*;

use crate::fruit::FruitType;

verus! {

/// The three color classes a splash can take.
#[derive(Clone, Copy, Debug, PartialEq, Eq, Structural)]
pub enum SplashColor {
    Red,
    Orange,
    Yellow,
}

/// Which color class each fruit splashes in.
pub open spec fn spec_splash_color(fruit: FruitType) -> SplashColor {
    match fruit {
        FruitType::APPLE => SplashColor::Yellow,
        FruitType::BANANA => SplashColor::Yellow,
        FruitType::PINEAPPLE => SplashColor::Yellow,
        FruitType::ORANGE => SplashColor::Orange,
        FruitType::POME => SplashColor::Orange,
        FruitType::STRAWBERRY => SplashColor::Red,
        FruitType::WATERMELON => SplashColor::Red,
    }
}

/// The splash color for a struck fruit: yellow for apple, banana and
/// pineapple; orange for orange and POME; red for strawberry and
/// watermelon.
pub fn splash_color(fruit: FruitType) -> (r: SplashColor)
    ensures
        r == spec_splash_color(fruit),
{
    match fruit {
        FruitType::APPLE | FruitType::BANANA | FruitType::PINEAPPLE => SplashColor::Yellow,
        FruitType::ORANGE | FruitType::POME => SplashColor::Orange,
        FruitType::STRAWBERRY | FruitType::WATERMELON => SplashColor::Red,
    }
}

} // verus!
