//! The spawner: a repeating timer that introduces new fruit at random
//! positions along the top of the play area, with rare power-up draws
//! checked in a fixed priority order, and an interval that shortens on
//! every level-up down to a floor.
//!
//! The spawn interval is held in nanoseconds so that the 95-percent decay
//! is exact.

use vstd::prelude::*;

use crate::components::MAX_DURATION_MS;
use crate::fruit::Fruit;
use crate::fruit::FruitType;
use crate::random::probably;
use crate::random::randint;

verus! {

/// The most fruit one ordinary spawn burst can hold.
pub const MAX_COMBO_FRUITS: i32 = 3;

/// The horizontal span fruit spawns across, in world units.
pub const SPAWN_BORDER_LEFT: i32 = -350;

pub const SPAWN_BORDER_RIGHT: i32 = 350;

/// Each level-up multiplies the interval by this percentage.
pub const SPAWN_INTENSITY_UPDATE_PERCENT: u64 = 95;

/// The interval between spawn bursts at the start of a session.
pub const INITIAL_SPAWN_INTERVAL_NS: u64 = 800_000_000;

/// The interval never drops under this floor, whatever the level.
pub const MIN_SPAWN_INTERVAL_NS: u64 = 450_000_000;

/// An interval is never told to run longer than a day.
pub const MAX_SPAWN_INTERVAL_NS: u64 = 86_400_000_000_000;

pub const PINEAPPLE_SPAWN_PROBABILITY_PERCENT: u32 = 4;

pub const POME_SPAWN_PROBABILITY_PERCENT: u32 = 3;

pub const WATERMELON_OVERRIDE_PERCENT: u32 = 10;

/// The spawn row of a power-up, in thousandths of a world unit.
pub const POWER_UP_ROW_Y: i64 = 350_000;

/// Combo fruit stack upward from this row in these steps, so they fall as
/// a staggered column.
pub const COMBO_BASE_Y: i64 = 330_000;

pub const COMBO_STEP_Y: i64 = 30_000;

/// The repeating spawn timer, in nanoseconds.
#[derive(Clone, Copy, Debug, PartialEq, Eq, Structural)]
pub struct SpawnTimer {
    pub interval_ns: u64,
    pub elapsed_ns: u64,
}

/// What one tick does to the spawn timer: accumulated time crossing the
/// interval fires a burst and keeps the excess.
pub open spec fn spec_spawn_tick(t: SpawnTimer, delta_ms: int) -> SpawnTimer {
    let total = t.elapsed_ns + delta_ms * 1_000_000;
    SpawnTimer { interval_ns: t.interval_ns, elapsed_ns: (total % (t.interval_ns as int)) as u64 }
}

pub open spec fn spec_spawn_fires(t: SpawnTimer, delta_ms: int) -> bool {
    t.elapsed_ns + delta_ms * 1_000_000 >= t.interval_ns
}

impl SpawnTimer {
    pub open spec fn wf(self) -> bool {
        &&& 1_000_000 <= self.interval_ns <= MAX_SPAWN_INTERVAL_NS
        &&& self.elapsed_ns < MAX_SPAWN_INTERVAL_NS
    }

    /// A fresh timer at the initial interval.
    pub fn new() -> (t: SpawnTimer)
        ensures
            t == (SpawnTimer { interval_ns: INITIAL_SPAWN_INTERVAL_NS, elapsed_ns: 0 }),
            t.wf(),
    {
        SpawnTimer { interval_ns: INITIAL_SPAWN_INTERVAL_NS, elapsed_ns: 0 }
    }

    /// Advances the timer; true exactly when a spawn burst is due.
    pub fn tick(&mut self, delta_ms: u64) -> (fired: bool)
        requires
            old(self).wf(),
            delta_ms <= MAX_DURATION_MS,
        ensures
            final(self).wf(),
            *final(self) == spec_spawn_tick(*old(self), delta_ms as int),
            fired == spec_spawn_fires(*old(self), delta_ms as int),
    {
        let total = self.elapsed_ns + delta_ms * 1_000_000;
        let fired = total >= self.interval_ns;
        self.elapsed_ns = total % self.interval_ns;
        fired
    }
}

/// The 95-percent decay a level-up applies, at nanosecond precision.
pub open spec fn spec_decay_interval(interval: int) -> int {
    interval / 100 * SPAWN_INTENSITY_UPDATE_PERCENT
}

/// The interval after one level-up: the decayed value, unless that would
/// dip under the floor, in which case the last value at or above the floor
/// is kept and no further decrease applies.
pub open spec fn spec_next_interval(interval: int) -> int {
    if spec_decay_interval(interval) >= MIN_SPAWN_INTERVAL_NS {
        spec_decay_interval(interval)
    } else {
        interval
    }
}

/// On a level-up, shortens the spawn interval by the decay factor while
/// that leaves it at or above the floor; otherwise the interval stays.
pub fn increase_spawn_intensity(spawn_timer: &mut SpawnTimer, level_fired: bool)
    requires
        old(spawn_timer).wf(),
    ensures
        final(spawn_timer).wf(),
        final(spawn_timer).elapsed_ns == old(spawn_timer).elapsed_ns,
        level_fired ==> final(spawn_timer).interval_ns == spec_next_interval(
            old(spawn_timer).interval_ns as int,
        ),
        !level_fired ==> final(spawn_timer).interval_ns == old(spawn_timer).interval_ns,
{
    if level_fired {
        let next = spawn_timer.interval_ns / 100 * SPAWN_INTENSITY_UPDATE_PERCENT;
        if next >= MIN_SPAWN_INTERVAL_NS {
            spawn_timer.interval_ns = next;
        }
    }
}

/// The interval after a number of level-ups.
pub open spec fn spec_interval_after(initial: int, n: nat) -> int
    decreases n,
{
    if n == 0 {
        initial
    } else {
        spec_next_interval(spec_interval_after(initial, (n - 1) as nat))
    }
}

/// The pure decay applied a number of times, with no floor.
pub open spec fn spec_pure_decay(initial: int, n: nat) -> int
    decreases n,
{
    if n == 0 {
        initial
    } else {
        spec_decay_interval(spec_pure_decay(initial, (n - 1) as nat))
    }
}

/// The spawn interval never leaves the floor behind: starting at or above
/// it, any number of level-ups keeps it at or above it.
pub proof fn lemma_interval_never_below_floor(initial: int, n: nat)
    requires
        initial >= MIN_SPAWN_INTERVAL_NS,
    ensures
        spec_interval_after(initial, n) >= MIN_SPAWN_INTERVAL_NS,
    decreases n,
{
    if n > 0 {
        lemma_interval_never_below_floor(initial, (n - 1) as nat);
    }
}

/// While the pure decay stays at or above the floor, the interval after
/// each level-up is exactly the initial interval decayed that many times:
/// 95 percent of the previous value, applied per level-up.
pub proof fn lemma_interval_tracks_decay(initial: int, n: nat)
    requires
        forall|m: nat| m <= n ==> #[trigger] spec_pure_decay(initial, m) >= MIN_SPAWN_INTERVAL_NS,
    ensures
        spec_interval_after(initial, n) == spec_pure_decay(initial, n),
    decreases n,
{
    if n > 0 {
        assert(forall|m: nat|
            m <= (n - 1) as nat ==> #[trigger] spec_pure_decay(initial, m)
                >= MIN_SPAWN_INTERVAL_NS);
        lemma_interval_tracks_decay(initial, (n - 1) as nat);
        assert(spec_pure_decay(initial, n) >= MIN_SPAWN_INTERVAL_NS);
    }
}

/// The three kinds of spawn draw, in trial priority order.
#[derive(Clone, Copy, Debug, PartialEq, Eq, Structural)]
pub enum FoodType {
    FRUIT,
    PINEAPPLE,
    POME,
}

/// The fixed priority among the spawn trials: the pineapple trial is
/// checked first, then the POME trial, and ordinary fruit is the fallback.
pub fn select_food(pineapple_roll: bool, pome_roll: bool) -> (r: FoodType)
    ensures
        r == (if pineapple_roll {
            FoodType::PINEAPPLE
        } else if pome_roll {
            FoodType::POME
        } else {
            FoodType::FRUIT
        }),
{
    if pineapple_roll {
        return FoodType::PINEAPPLE;
    }
    if pome_roll {
        return FoodType::POME;
    }
    FoodType::FRUIT
}

/// Draws the kind of the next spawn: a rare pineapple trial, then a rare
/// POME trial, then ordinary fruit.
pub fn random_fruit_type() -> (r: FoodType) {
    let pineapple_roll = probably(PINEAPPLE_SPAWN_PROBABILITY_PERCENT);
    let pome_roll = probably(POME_SPAWN_PROBABILITY_PERCENT);
    select_food(pineapple_roll, pome_roll)
}

/// An ordinary roster fruit: everything but the two power-ups.
pub open spec fn spec_ordinary(t: FruitType) -> bool {
    t != FruitType::PINEAPPLE && t != FruitType::POME
}

/// The roster draw behind an ordinary fruit: a rare watermelon override,
/// otherwise one of the four staple fruits by index.
pub fn fruit_for_roll(watermelon_roll: bool, index: i32) -> (r: FruitType)
    requires
        1 <= index < 5,
    ensures
        r == (if watermelon_roll {
            FruitType::WATERMELON
        } else if index == 1 {
            FruitType::APPLE
        } else if index == 2 {
            FruitType::STRAWBERRY
        } else if index == 3 {
            FruitType::BANANA
        } else {
            FruitType::ORANGE
        }),
        spec_ordinary(r),
{
    if watermelon_roll {
        return FruitType::WATERMELON;
    }
    match index {
        1 => FruitType::APPLE,
        2 => FruitType::STRAWBERRY,
        3 => FruitType::BANANA,
        _ => FruitType::ORANGE,
    }
}

/// Draws the visual and reward type of one ordinary fruit.
pub fn random_ordinary_fruit() -> (r: FruitType)
    ensures
        spec_ordinary(r),
{
    let watermelon_roll = probably(WATERMELON_OVERRIDE_PERCENT);
    let index = randint(1, 5);
    fruit_for_roll(watermelon_roll, index)
}

/// The horizontal spawn span in thousandths of a world unit.
pub open spec fn spec_in_spawn_span(x: int) -> bool {
    SPAWN_BORDER_LEFT * 1000 <= x < SPAWN_BORDER_RIGHT * 1000
}

/// What every burst of newly spawned fruit looks like, whatever the draws
/// were: one to three fresh unsliced fruit in one column inside the spawn
/// span. A power-up spawns alone on its row (a pineapple without spin, to
/// stand out); ordinary fruit stack in staggered combo rows.
pub open spec fn spec_spawn_batch(batch: Seq<Fruit>) -> bool {
    &&& 1 <= batch.len() <= MAX_COMBO_FRUITS
    &&& forall|i: int|
        0 <= i < batch.len() ==> {
            &&& (#[trigger] batch[i]).wf()
            &&& !batch[i].sliced
            &&& batch[i].x == batch[0].x
        }
    &&& spec_in_spawn_span(batch[0].x as int)
    &&& if !spec_ordinary(batch[0].fruit_type) {
        &&& batch.len() == 1
        &&& batch[0].y == POWER_UP_ROW_Y
        &&& batch[0].fruit_type == FruitType::PINEAPPLE ==> batch[0].rotation_speed == 0
    } else {
        forall|i: int|
            0 <= i < batch.len() ==> spec_ordinary(#[trigger] batch[i].fruit_type) && batch[i].y
                == COMBO_BASE_Y + i * COMBO_STEP_Y
    }
}

/// One simulation tick of the spawner. Until the timer fires nothing
/// happens; on a firing tick one burst is appended to the live fruit:
/// whatever the random draws turn out to be, the batch satisfies
/// `spec_spawn_batch`, and the fruit already falling are untouched.
pub fn spawn_fruits(spawn_timer: &mut SpawnTimer, delta_ms: u64, fruits: &mut Vec<Fruit>)
    requires
        old(spawn_timer).wf(),
        delta_ms <= MAX_DURATION_MS,
    ensures
        final(spawn_timer).wf(),
        *final(spawn_timer) == spec_spawn_tick(*old(spawn_timer), delta_ms as int),
        !spec_spawn_fires(*old(spawn_timer), delta_ms as int) ==> final(fruits)@ == old(fruits)@,
        spec_spawn_fires(*old(spawn_timer), delta_ms as int) ==> {
            &&& final(fruits)@.len() > old(fruits)@.len()
            &&& final(fruits)@.subrange(0, old(fruits)@.len() as int) == old(fruits)@
            &&& spec_spawn_batch(final(fruits)@.skip(old(fruits)@.len() as int))
        },
{
    let fired = spawn_timer.tick(delta_ms);
    if !fired {
        return ;
    }
    let ghost start = fruits@.len() as int;
    proof {
        assert(fruits@.subrange(0, start) =~= old(fruits)@);
    }
    let x_units = randint(SPAWN_BORDER_LEFT, SPAWN_BORDER_RIGHT);
    let x: i64 = (x_units as i64) * 1000;
    let food = random_fruit_type();
    match food {
        FoodType::PINEAPPLE => {
            let mut fruit = Fruit::new(x, POWER_UP_ROW_Y);
            fruit.fruit_type = FruitType::PINEAPPLE;
            fruit.rotation_speed = 0;
            fruits.push(fruit);
        },
        FoodType::POME => {
            let mut fruit = Fruit::new(x, POWER_UP_ROW_Y);
            fruit.fruit_type = FruitType::POME;
            fruits.push(fruit);
        },
        FoodType::FRUIT => {
            let combo = randint(1, MAX_COMBO_FRUITS + 1);
            let mut i: i32 = 0;
            while i < combo
                invariant
                    0 <= i <= combo,
                    1 <= combo <= MAX_COMBO_FRUITS,
                    start == old(fruits)@.len() as int,
                    SPAWN_BORDER_LEFT * 1000 <= x < SPAWN_BORDER_RIGHT * 1000,
                    fruits@.len() == start + i,
                    start <= fruits@.len() <= start + MAX_COMBO_FRUITS,
                    fruits@.subrange(0, start) == old(fruits)@,
                    forall|k: int|
                        start <= k < fruits@.len() ==> {
                            &&& (#[trigger] fruits@[k]).wf()
                            &&& !fruits@[k].sliced
                            &&& fruits@[k].x == x
                            &&& spec_ordinary(fruits@[k].fruit_type)
                            &&& fruits@[k].y == COMBO_BASE_Y + (k - start) * COMBO_STEP_Y
                        },
                decreases combo - i,
            {
                let y: i64 = COMBO_BASE_Y + (i as i64) * COMBO_STEP_Y;
                let mut fruit = Fruit::new(x, y);
                fruit.fruit_type = random_ordinary_fruit();
                let ghost prev = fruits@;
                fruits.push(fruit);
                proof {
                    assert(fruits@.subrange(0, start) =~= prev.subrange(0, start));
                }
                i = i + 1;
            }
            proof {
                assert(spec_spawn_batch(fruits@.skip(start))) by {
                    let batch = fruits@.skip(start);
                    assert(forall|k: int|
                        0 <= k < batch.len() ==> #[trigger] batch[k] == fruits@[start + k]);
                    assert(spec_ordinary(batch[0].fruit_type));
                }
            }
        },
    }
    proof {
        let batch = fruits@.skip(start);
        assert(forall|k: int| 0 <= k < batch.len() ==> #[trigger] batch[k] == fruits@[start + k]);
        assert(fruits@.subrange(0, start) =~= old(fruits)@);
        assert(spec_spawn_batch(batch));
    }
}

} // verus!
