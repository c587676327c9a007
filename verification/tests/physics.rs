use fruits_game::events::Signal;
use fruits_game::events::WaveEvent;
use fruits_game::fruit::despawn_fallen_fruits;
use fruits_game::fruit::fall;
use fruits_game::fruit::Fruit;
use fruits_game::fruit::FruitType;
use fruits_game::session::Session;
use fruits_game::sound::SoundType;

fn plain_fruit(x: i64, y: i64) -> Fruit {
    Fruit {
        x,
        y,
        angle: 0,
        rotation_speed: 10,
        spread_speed: 0,
        fall_speed: 400,
        fruit_type: FruitType::APPLE,
        sliced: false,
    }
}

#[test]
fn fall_integrates_position_exactly() {
    let mut fruits = vec![plain_fruit(0, 350_000)];
    fall(&mut fruits, 16);
    // 400 units/s for 16 ms is 6400 thousandths.
    assert_eq!(fruits[0].y, 350_000 - 6400);
    assert_eq!(fruits[0].angle, 10);
    assert_eq!(fruits[0].x, 0);
}

#[test]
fn fall_decays_spread_toward_rest() {
    let mut debris = plain_fruit(0, 0);
    debris.sliced = true;
    debris.fall_speed = 500;
    debris.spread_speed = 100;
    let mut fruits = vec![debris];
    fall(&mut fruits, 1000);
    // 100 decays to 95 before the drift applies: 95 units/s for one second.
    assert_eq!(fruits[0].spread_speed, 95);
    assert_eq!(fruits[0].x, 95_000);
    assert_eq!(fruits[0].y, -500_000);

    let mut sideways = plain_fruit(0, 0);
    sideways.sliced = true;
    sideways.fall_speed = 500;
    sideways.spread_speed = -1;
    let mut fruits = vec![sideways];
    fall(&mut fruits, 1);
    // The last sliver of spread rounds toward zero and stays at rest.
    assert_eq!(fruits[0].spread_speed, 0);
    assert_eq!(fruits[0].x, 0);
}

#[test]
fn missed_fruit_costs_one_life() {
    // A fresh session; an unsliced apple falls all the way to the floor.
    let mut session = Session::default();
    let mut fruits = vec![plain_fruit(12_000, 350_000)];
    let mut signals: Vec<Signal> = Vec::new();

    fall(&mut fruits, 2100);
    assert_eq!(fruits[0].y, 350_000 - 400 * 2100);
    assert!(fruits[0].y <= -480_000);

    despawn_fallen_fruits(&mut fruits, &mut session, &mut signals);
    assert_eq!(session.lives_left, 4);
    assert_eq!(session.score, 0);
    assert!(fruits.is_empty());
    assert_eq!(
        signals,
        vec![
            Signal::Wave(WaveEvent(12_000)),
            Signal::Sound(SoundType::PENALTY),
        ]
    );
}

#[test]
fn sliced_debris_despawns_without_penalty() {
    let mut session = Session::default();
    let mut debris = plain_fruit(0, -480_000);
    debris.sliced = true;
    debris.fall_speed = 500;
    let mut fruits = vec![debris];
    let mut signals: Vec<Signal> = Vec::new();

    despawn_fallen_fruits(&mut fruits, &mut session, &mut signals);
    assert_eq!(session.lives_left, 5);
    assert!(fruits.is_empty());
    assert!(signals.is_empty());
}

#[test]
fn surviving_fruit_keep_their_order() {
    let mut session = Session::default();
    let keep_a = plain_fruit(1000, 100_000);
    let gone = plain_fruit(2000, -480_000);
    let keep_b = plain_fruit(3000, -400_000);
    let mut fruits = vec![keep_a, gone, keep_b];
    let mut signals: Vec<Signal> = Vec::new();

    despawn_fallen_fruits(&mut fruits, &mut session, &mut signals);
    assert_eq!(fruits.len(), 2);
    assert_eq!(fruits[0].x, 1000);
    assert_eq!(fruits[1].x, 3000);
    assert_eq!(session.lives_left, 4);
}

#[test]
fn lives_never_drop_below_zero() {
    let mut session = Session::default();
    session.lives_left = 1;
    let mut fruits = vec![plain_fruit(0, -480_000), plain_fruit(100, -490_000)];
    let mut signals: Vec<Signal> = Vec::new();

    despawn_fallen_fruits(&mut fruits, &mut session, &mut signals);
    assert_eq!(session.lives_left, 0);
    // Both misses still announce their penalty.
    assert_eq!(signals.len(), 4);
}
