use fruits_game::chef::hit;
use fruits_game::chef::update_level;
use fruits_game::chef::walk;
use fruits_game::chef::Player;
use fruits_game::events::ChefHitEvent;
use fruits_game::events::RewardText;
use fruits_game::fruit::FruitType;
use fruits_game::sound::SoundEvent;
use fruits_game::sound::SoundType;
use fruits_game::splash::splash_color;
use fruits_game::splash::SplashColor;

#[test]
fn sound_cues_map_to_their_audio_files() {
    assert_eq!(SoundEvent::sound(SoundType::SLASH).sound, "audio/slash.wav");
    assert_eq!(SoundEvent::sound(SoundType::HIT).sound, "audio/hit.wav");
    assert_eq!(
        SoundEvent::sound(SoundType::PENALTY).sound,
        "audio/penalty.wav"
    );
    assert_eq!(SoundEvent::sound(SoundType::BOOST).sound, "audio/boost.wav");
    assert_eq!(
        SoundEvent::sound(SoundType::BOOST_HIT).sound,
        "audio/critical.wav"
    );
}

#[test]
fn fruit_sounds_map_to_their_audio_files() {
    assert_eq!(
        SoundEvent::fruit_sound(FruitType::APPLE).sound,
        "audio/apple-slice.wav"
    );
    assert_eq!(
        SoundEvent::fruit_sound(FruitType::ORANGE).sound,
        "audio/orange-slice.wav"
    );
    assert_eq!(
        SoundEvent::fruit_sound(FruitType::STRAWBERRY).sound,
        "audio/strawberry-slice.wav"
    );
    assert_eq!(
        SoundEvent::fruit_sound(FruitType::PINEAPPLE).sound,
        "audio/pineapple.wav"
    );
    assert_eq!(
        SoundEvent::fruit_sound(FruitType::WATERMELON).sound,
        "audio/watermelon.wav"
    );
    assert_eq!(
        SoundEvent::fruit_sound(FruitType::BANANA).sound,
        "audio/banana.wav"
    );
    assert_eq!(
        SoundEvent::fruit_sound(FruitType::POME).sound,
        "audio/pome.wav"
    );
}

#[test]
fn splash_colors_follow_the_fruit() {
    assert_eq!(splash_color(FruitType::APPLE), SplashColor::Yellow);
    assert_eq!(splash_color(FruitType::BANANA), SplashColor::Yellow);
    assert_eq!(splash_color(FruitType::PINEAPPLE), SplashColor::Yellow);
    assert_eq!(splash_color(FruitType::ORANGE), SplashColor::Orange);
    assert_eq!(splash_color(FruitType::POME), SplashColor::Orange);
    assert_eq!(splash_color(FruitType::STRAWBERRY), SplashColor::Red);
    assert_eq!(splash_color(FruitType::WATERMELON), SplashColor::Red);
}

#[test]
fn reward_texts_spell_their_messages() {
    assert_eq!(RewardText::BoostBonus.message(), "+1 boost!");
    assert_eq!(RewardText::LifeBonus.message(), "+1 live!");
}

#[test]
fn the_player_walks_between_the_borders() {
    let mut player = Player::new();
    walk(&mut player, true, false, 100);
    // 900 units/s for 100 ms.
    assert_eq!(player.x, -90_000);

    walk(&mut player, false, true, 200);
    assert_eq!(player.x, 90_000);

    // At the border no further step in that direction is taken.
    player.x = -500_000;
    walk(&mut player, true, false, 100);
    assert_eq!(player.x, -500_000);
    player.x = 500_000;
    walk(&mut player, false, true, 100);
    assert_eq!(player.x, 500_000);
}

#[test]
fn the_attack_event_anchors_at_the_player() {
    let mut player = Player::new();
    player.x = 123_000;
    assert_eq!(
        hit(&player),
        ChefHitEvent {
            x: 123_000,
            y: -220_000
        }
    );
}

#[test]
fn level_ups_speed_the_player_up() {
    let mut player = Player::new();
    update_level(&mut player, false);
    assert_eq!(player.speed, 900);
    update_level(&mut player, true);
    assert_eq!(player.speed, 910);
}
