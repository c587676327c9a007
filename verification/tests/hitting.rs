use fruits_game::events::ChefHitEvent;
use fruits_game::events::RewardText;
use fruits_game::events::Signal;
use fruits_game::events::SplashEvent;
use fruits_game::events::TextEvent;
use fruits_game::fruit::hit;
use fruits_game::fruit::Fruit;
use fruits_game::fruit::FruitType;
use fruits_game::session::Session;
use fruits_game::sound::SoundType;

fn fruit_at(x: i64, y: i64, fruit_type: FruitType) -> Fruit {
    Fruit {
        x,
        y,
        angle: 0,
        rotation_speed: 5,
        spread_speed: 0,
        fall_speed: 400,
        fruit_type,
        sliced: false,
    }
}

#[test]
fn one_attack_slices_both_overlapping_fruits() {
    // An apple and a pineapple both inside the attack's reach.
    let mut session = Session::default();
    let apple = fruit_at(0, -200_000, FruitType::APPLE);
    let pineapple = fruit_at(10_000, -150_000, FruitType::PINEAPPLE);
    let mut fruits = vec![apple, pineapple];
    let mut signals: Vec<Signal> = Vec::new();
    let event = ChefHitEvent { x: 0, y: -220_000 };

    hit(&event, &mut fruits, &mut session, &mut signals);

    assert!(fruits[0].sliced);
    assert!(fruits[1].sliced);
    assert_eq!(session.score, 2);
    assert_eq!(session.boosts, 1);
    assert_eq!(session.lives_left, 5);

    let slashes = signals
        .iter()
        .filter(|s| **s == Signal::Sound(SoundType::SLASH))
        .count();
    let hits = signals
        .iter()
        .filter(|s| **s == Signal::Sound(SoundType::HIT))
        .count();
    let slice_sounds = signals
        .iter()
        .filter(|s| matches!(s, Signal::FruitSound(_)))
        .count();
    assert_eq!(slashes, 1);
    assert_eq!(hits, 1);
    assert_eq!(slice_sounds, 2);

    assert_eq!(
        signals,
        vec![
            Signal::Splash(SplashEvent {
                x: 0,
                y: -200_000,
                fruit_type: FruitType::APPLE
            }),
            Signal::Text(TextEvent {
                text: RewardText::BoostBonus,
                x: 10_000,
                y: -150_000
            }),
            Signal::Splash(SplashEvent {
                x: 10_000,
                y: -150_000,
                fruit_type: FruitType::PINEAPPLE
            }),
            Signal::Sound(SoundType::SLASH),
            Signal::Sound(SoundType::HIT),
            Signal::FruitSound(FruitType::APPLE),
            Signal::FruitSound(FruitType::PINEAPPLE),
        ]
    );
}

#[test]
fn slicing_speeds_debris_up_but_not_pome() {
    let mut session = Session::default();
    session.lives_left = 3;
    let apple = fruit_at(0, -200_000, FruitType::APPLE);
    let pome = fruit_at(-20_000, -180_000, FruitType::POME);
    let mut fruits = vec![apple, pome];
    let mut signals: Vec<Signal> = Vec::new();
    let event = ChefHitEvent { x: 0, y: -220_000 };

    hit(&event, &mut fruits, &mut session, &mut signals);

    assert_eq!(fruits[0].fall_speed, 500);
    assert_eq!(fruits[1].fall_speed, 400);
    assert_eq!(session.lives_left, 4);
    assert_eq!(session.score, 2);
}

#[test]
fn an_already_sliced_fruit_is_never_rewarded_again() {
    let mut session = Session::default();
    let mut done = fruit_at(0, -200_000, FruitType::PINEAPPLE);
    done.sliced = true;
    done.fall_speed = 500;
    done.spread_speed = 200;
    let before = done;
    let mut fruits = vec![done];
    let mut signals: Vec<Signal> = Vec::new();
    let event = ChefHitEvent { x: 0, y: -220_000 };

    hit(&event, &mut fruits, &mut session, &mut signals);

    // Splash feedback still plays, but state and rewards are untouched.
    assert_eq!(fruits[0], before);
    assert_eq!(session.score, 0);
    assert_eq!(session.boosts, 0);
    assert_eq!(
        signals,
        vec![
            Signal::Splash(SplashEvent {
                x: 0,
                y: -200_000,
                fruit_type: FruitType::PINEAPPLE
            }),
            Signal::Sound(SoundType::SLASH),
        ]
    );
}

#[test]
fn pome_reward_never_pushes_lives_above_five() {
    let mut session = Session::default();
    assert_eq!(session.lives_left, 5);
    let pome = fruit_at(0, -200_000, FruitType::POME);
    let mut fruits = vec![pome];
    let mut signals: Vec<Signal> = Vec::new();
    let event = ChefHitEvent { x: 0, y: -220_000 };

    hit(&event, &mut fruits, &mut session, &mut signals);

    assert_eq!(session.lives_left, 5);
    assert_eq!(session.score, 1);
    // No "+1 live!" text when the reward was not owed.
    assert!(signals
        .iter()
        .all(|s| !matches!(s, Signal::Text(_))));
}

#[test]
fn an_attack_into_empty_air_only_slashes() {
    let mut session = Session::default();
    let far = fruit_at(300_000, 300_000, FruitType::APPLE);
    let mut fruits = vec![far];
    let mut signals: Vec<Signal> = Vec::new();
    let event = ChefHitEvent { x: 0, y: -220_000 };

    hit(&event, &mut fruits, &mut session, &mut signals);

    assert!(!fruits[0].sliced);
    assert_eq!(session.score, 0);
    assert_eq!(signals, vec![Signal::Sound(SoundType::SLASH)]);
}

#[test]
fn overlap_uses_the_combined_hitboxes() {
    // The spans are 90 units horizontally and 130 vertically.
    let mut session = Session::default();
    let inside = fruit_at(89_000, -220_000 + 129_000, FruitType::APPLE);
    let outside_x = fruit_at(90_000, -220_000, FruitType::APPLE);
    let outside_y = fruit_at(0, -220_000 + 130_000, FruitType::APPLE);
    let mut fruits = vec![inside, outside_x, outside_y];
    let mut signals: Vec<Signal> = Vec::new();
    let event = ChefHitEvent { x: 0, y: -220_000 };

    hit(&event, &mut fruits, &mut session, &mut signals);

    assert!(fruits[0].sliced);
    assert!(!fruits[1].sliced);
    assert!(!fruits[2].sliced);
    assert_eq!(session.score, 1);
}
