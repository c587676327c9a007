use fruits_game::boost::process_boost;
use fruits_game::boost::spawn_boost;
use fruits_game::events::Signal;
use fruits_game::fruit::Fruit;
use fruits_game::fruit::FruitType;
use fruits_game::session::Session;
use fruits_game::sound::SoundType;

fn fruit_at(x: i64, y: i64, fruit_type: FruitType) -> Fruit {
    Fruit {
        x,
        y,
        angle: 0,
        rotation_speed: 5,
        spread_speed: 0,
        fall_speed: 400,
        fruit_type,
        sliced: false,
    }
}

#[test]
fn activation_without_a_charge_is_a_no_op() {
    let mut session = Session::default();
    assert_eq!(session.boosts, 0);
    let fruits = vec![fruit_at(0, 100_000, FruitType::APPLE)];
    let mut signals: Vec<Signal> = Vec::new();

    let activation = spawn_boost(&mut session, &fruits, &mut signals);

    assert!(activation.is_none());
    assert_eq!(session, Session::default());
    assert!(signals.is_empty());
}

#[test]
fn activation_counts_low_fruit_plus_the_bonus() {
    let mut session = Session::default();
    session.boosts = 2;
    // Three fruit below the visibility line, one above it.
    let fruits = vec![
        fruit_at(0, 100_000, FruitType::APPLE),
        fruit_at(100, -50_000, FruitType::BANANA),
        fruit_at(200, 299_000, FruitType::ORANGE),
        fruit_at(300, 340_000, FruitType::APPLE),
    ];
    let mut signals: Vec<Signal> = Vec::new();

    let activation = spawn_boost(&mut session, &fruits, &mut signals);

    let boost = activation.expect("a held charge must activate");
    assert_eq!(boost.count, 8);
    assert_eq!(session.boosts, 1);
    assert_eq!(signals, vec![Signal::Sound(SoundType::BOOST)]);
}

#[test]
fn pace_ticks_slice_the_lowest_fruit_until_the_count_is_spent() {
    let mut session = Session::default();
    session.boosts = 1;
    // Three low fruit at activation time: the count snapshots to eight.
    let mut fruits = vec![
        fruit_at(0, 250_000, FruitType::APPLE),
        fruit_at(100, 100_000, FruitType::BANANA),
        fruit_at(200, 200_000, FruitType::ORANGE),
    ];
    let mut signals: Vec<Signal> = Vec::new();
    let mut boost = spawn_boost(&mut session, &fruits, &mut signals).unwrap();
    assert_eq!(boost.count, 8);

    // More fruit arrives while the activation runs, so all eight shots
    // find a target.
    for extra in 0..5 {
        fruits.push(fruit_at(1000 + extra, 300_000 + extra * 1000, FruitType::APPLE));
    }

    // The first firing tick must shoot the fruit lowest on the screen.
    let removed = process_boost(&mut boost, 100, &mut fruits, &mut session, &mut signals);
    assert!(!removed);
    assert_eq!(boost.count, 7);
    assert!(fruits[1].sliced);
    assert_eq!(session.score, 1);

    let mut removed = false;
    for _ in 0..7 {
        assert!(!removed);
        removed = process_boost(&mut boost, 100, &mut fruits, &mut session, &mut signals);
    }
    assert!(removed);
    assert_eq!(boost.count, 0);
    assert_eq!(session.score, 8);
    assert!(fruits.iter().all(|f| f.sliced));
}

#[test]
fn an_exhausted_activation_is_cleaned_up_without_a_crash() {
    let mut session = Session::default();
    session.boosts = 1;
    let mut fruits = vec![fruit_at(0, 100_000, FruitType::APPLE)];
    let mut signals: Vec<Signal> = Vec::new();
    let mut boost = spawn_boost(&mut session, &fruits, &mut signals).unwrap();
    assert_eq!(boost.count, 6);

    // One target exists; the first firing tick takes it.
    assert!(!process_boost(&mut boost, 100, &mut fruits, &mut session, &mut signals));
    assert_eq!(boost.count, 5);

    // No unsliced fruit remains: the count stays and the activation ends.
    let removed = process_boost(&mut boost, 100, &mut fruits, &mut session, &mut signals);
    assert!(removed);
    assert_eq!(boost.count, 5);
    assert_eq!(session.score, 1);
}

#[test]
fn the_pace_clock_spaces_the_shots() {
    let mut session = Session::default();
    session.boosts = 1;
    let mut fruits = vec![fruit_at(0, 100_000, FruitType::APPLE)];
    let mut signals: Vec<Signal> = Vec::new();
    let mut boost = spawn_boost(&mut session, &fruits, &mut signals).unwrap();

    // Fifty milliseconds is not a full pace: nothing happens.
    let removed = process_boost(&mut boost, 50, &mut fruits, &mut session, &mut signals);
    assert!(!removed);
    assert!(!fruits[0].sliced);
    assert_eq!(session.score, 0);

    // The next fifty complete the pace.
    let removed = process_boost(&mut boost, 50, &mut fruits, &mut session, &mut signals);
    assert!(!removed);
    assert!(fruits[0].sliced);
    assert_eq!(session.score, 1);
}

#[test]
fn a_boost_shot_rewards_like_the_attack_path() {
    let mut session = Session::default();
    session.boosts = 1;
    session.lives_left = 2;
    let mut fruits = vec![fruit_at(0, 100_000, FruitType::POME)];
    let mut signals: Vec<Signal> = Vec::new();
    let mut boost = spawn_boost(&mut session, &fruits, &mut signals).unwrap();

    process_boost(&mut boost, 100, &mut fruits, &mut session, &mut signals);

    assert!(fruits[0].sliced);
    assert_eq!(fruits[0].fall_speed, 400);
    assert_eq!(session.lives_left, 3);
    assert_eq!(session.score, 1);
    assert!(signals.contains(&Signal::Sound(SoundType::BOOST_HIT)));
    assert!(signals
        .iter()
        .any(|s| matches!(s, Signal::BoostShot(_))));
}
