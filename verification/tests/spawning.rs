use fruits_game::fruit::Fruit;
use fruits_game::fruit::FruitType;
use fruits_game::spawn::fruit_for_roll;
use fruits_game::spawn::increase_spawn_intensity;
use fruits_game::spawn::select_food;
use fruits_game::spawn::spawn_fruits;
use fruits_game::spawn::FoodType;
use fruits_game::spawn::SpawnTimer;

#[test]
fn the_interval_decays_by_five_percent_per_level_up() {
    let mut timer = SpawnTimer::new();
    assert_eq!(timer.interval_ns, 800_000_000);

    increase_spawn_intensity(&mut timer, true);
    assert_eq!(timer.interval_ns, 760_000_000);

    // A tick without a level-up leaves the interval alone.
    increase_spawn_intensity(&mut timer, false);
    assert_eq!(timer.interval_ns, 760_000_000);
}

#[test]
fn five_level_ups_keep_the_interval_above_the_floor() {
    let mut timer = SpawnTimer::new();
    for _ in 0..5 {
        increase_spawn_intensity(&mut timer, true);
    }
    // 800ms decayed five times: just over 619ms, well above 450ms.
    assert_eq!(timer.interval_ns, 619_024_750);
    assert!(timer.interval_ns > 450_000_000);
}

#[test]
fn the_interval_freezes_at_the_last_value_above_the_floor() {
    let mut timer = SpawnTimer::new();
    for _ in 0..11 {
        increase_spawn_intensity(&mut timer, true);
    }
    assert_eq!(timer.interval_ns, 455_039_835);

    // Any further level-up would dip under the floor, so nothing changes.
    increase_spawn_intensity(&mut timer, true);
    increase_spawn_intensity(&mut timer, true);
    assert_eq!(timer.interval_ns, 455_039_835);
    assert!(timer.interval_ns >= 450_000_000);
}

#[test]
fn power_up_trials_come_in_priority_order() {
    assert_eq!(select_food(true, true), FoodType::PINEAPPLE);
    assert_eq!(select_food(true, false), FoodType::PINEAPPLE);
    assert_eq!(select_food(false, true), FoodType::POME);
    assert_eq!(select_food(false, false), FoodType::FRUIT);
}

#[test]
fn the_roster_draw_maps_each_index() {
    assert_eq!(fruit_for_roll(true, 1), FruitType::WATERMELON);
    assert_eq!(fruit_for_roll(true, 4), FruitType::WATERMELON);
    assert_eq!(fruit_for_roll(false, 1), FruitType::APPLE);
    assert_eq!(fruit_for_roll(false, 2), FruitType::STRAWBERRY);
    assert_eq!(fruit_for_roll(false, 3), FruitType::BANANA);
    assert_eq!(fruit_for_roll(false, 4), FruitType::ORANGE);
}

#[test]
fn a_quiet_tick_spawns_nothing() {
    let mut timer = SpawnTimer::new();
    let mut fruits: Vec<Fruit> = Vec::new();
    spawn_fruits(&mut timer, 100, &mut fruits);
    assert!(fruits.is_empty());
    assert_eq!(timer.elapsed_ns, 100_000_000);
}

#[test]
fn a_firing_tick_spawns_a_fresh_column() {
    // Run many bursts: every one obeys the spawn rules whatever the draws.
    for _ in 0..50 {
        let mut timer = SpawnTimer::new();
        let mut fruits: Vec<Fruit> = Vec::new();
        spawn_fruits(&mut timer, 800, &mut fruits);

        assert!(!fruits.is_empty());
        assert!(fruits.len() <= 3);
        let x = fruits[0].x;
        assert!((-350_000..350_000).contains(&x));
        for (i, fruit) in fruits.iter().enumerate() {
            assert!(!fruit.sliced);
            assert_eq!(fruit.x, x);
            assert_eq!(fruit.fall_speed, 400);
            match fruit.fruit_type {
                FruitType::PINEAPPLE => {
                    assert_eq!(fruits.len(), 1);
                    assert_eq!(fruit.y, 350_000);
                    assert_eq!(fruit.rotation_speed, 0);
                }
                FruitType::POME => {
                    assert_eq!(fruits.len(), 1);
                    assert_eq!(fruit.y, 350_000);
                }
                _ => {
                    assert_eq!(fruit.y, 330_000 + 30_000 * i as i64);
                }
            }
        }
    }
}
