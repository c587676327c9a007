//! The boost ability: spending a charge captures a target count from the
//! fruit currently low on the screen, and a paced activation then
//! auto-slices the lowest unsliced fruit once per pace tick until the count
//! is spent or no target remains.

use vstd::prelude::*;

use crate::components::spec_tick;
use crate::components::Clock;
use crate::events::BoostEvent;
use crate::events::RewardText;
use crate::events::Signal;
use crate::events::SplashEvent;
use crate::events::TextEvent;
use crate::fruit::Fruit;
use crate::fruit::FruitType;
use crate::fruit::DESPAWN_FLOOR;
use crate::fruit::SLICE_SPEED_BONUS;
use crate::session::Session;
use crate::session::MAX_LIVES;
use crate::sound::SoundType;

verus! {

/// Fruit below this height counts toward the activation's target count.
pub const BOOST_VISIBILITY_Y: i64 = 300_000;

/// The fixed bonus added to the snapshot count at activation.
pub const BOOST_COUNT_BONUS: usize = 5;

/// The pace between auto-slices.
pub const BOOST_PACE_MS: u64 = 100;

/// Fruit this close to the despawn floor (or below) is no longer worth
/// shooting: it is lost either way.
pub const BOOST_SAFETY_MARGIN: i64 = 20_000;

/// Where every boost shot lands: the player's position below the play area.
pub const BOOST_DEST_X: i64 = 0;

pub const BOOST_DEST_Y: i64 = -380_000;

/// One running boost activation: how many auto-slices remain and the pace
/// clock that spaces them.
#[derive(Clone, Copy, Debug, PartialEq, Eq, Structural)]
pub struct Boost {
    pub count: usize,
    pub clock: Clock,
}

/// How many fruits from position `i` on are low on the screen.
pub open spec fn spec_low_count(fs: Seq<Fruit>, i: int) -> int
    decreases fs.len() - i,
{
    if i < 0 || i >= fs.len() {
        0
    } else {
        (if fs[i].y < BOOST_VISIBILITY_Y {
            1int
        } else {
            0int
        }) + spec_low_count(fs, i + 1)
    }
}

/// Whether the boost can still target a fruit: unsliced and not already
/// past the safety margin at the despawn floor.
pub open spec fn spec_boost_eligible(f: Fruit) -> bool {
    !f.sliced && f.y > DESPAWN_FLOOR - BOOST_SAFETY_MARGIN
}

/// Whether any fruit is still a boost target.
pub open spec fn spec_any_eligible(fs: Seq<Fruit>) -> bool {
    exists|k: int| 0 <= k < fs.len() && spec_boost_eligible(#[trigger] fs[k])
}

/// The fruit a pace tick shoots: the eligible fruit lowest on the screen,
/// the earliest one among ties.
pub open spec fn spec_is_boost_target(fs: Seq<Fruit>, j: int) -> bool {
    &&& 0 <= j < fs.len()
    &&& spec_boost_eligible(fs[j])
    &&& forall|k: int|
        0 <= k < fs.len() && spec_boost_eligible(#[trigger] fs[k]) ==> fs[j].y <= fs[k].y
    &&& forall|k: int| 0 <= k < j && spec_boost_eligible(#[trigger] fs[k]) ==> fs[j].y < fs[k].y
}

/// The life reward for slicing a fruit: a POME restores one life while
/// lives are below their ceiling.
pub open spec fn spec_reward_lives(f: Fruit, lives: int) -> int {
    if f.fruit_type == FruitType::POME && lives < MAX_LIVES {
        lives + 1
    } else {
        lives
    }
}

/// The boost reward for slicing a fruit: a pineapple grants one charge.
pub open spec fn spec_reward_boosts(f: Fruit, boosts: int) -> int {
    if f.fruit_type == FruitType::PINEAPPLE {
        boosts + 1
    } else {
        boosts
    }
}

/// How the slicing primitive leaves a fruit that was not yet sliced: the
/// slice effects on speed and spread, everything else untouched.
pub open spec fn spec_slice_result(pre: Fruit, post: Fruit) -> bool {
    &&& post.sliced
    &&& post.fall_speed == pre.fall_speed + if pre.fruit_type == FruitType::POME {
        0
    } else {
        SLICE_SPEED_BONUS as int
    }
    &&& -500 <= post.spread_speed <= 400
    &&& post.x == pre.x
    &&& post.y == pre.y
    &&& post.angle == pre.angle
    &&& post.rotation_speed == pre.rotation_speed
    &&& post.fruit_type == pre.fruit_type
}

/// The signals one boost shot emits at the struck fruit, in order: the
/// projectile, the reward text where one is owed, the splash, the fruit's
/// slice sound, and the boost-hit sound.
pub open spec fn spec_boost_signals(f: Fruit, lives: int) -> Seq<Signal> {
    let shot = seq![
        Signal::BoostShot(
            BoostEvent {
                source_x: f.x,
                source_y: f.y,
                dest_x: BOOST_DEST_X,
                dest_y: BOOST_DEST_Y,
            },
        ),
    ];
    let text = if f.fruit_type == FruitType::PINEAPPLE {
        seq![Signal::Text(TextEvent { text: RewardText::BoostBonus, x: f.x, y: f.y })]
    } else if f.fruit_type == FruitType::POME && lives < MAX_LIVES {
        seq![Signal::Text(TextEvent { text: RewardText::LifeBonus, x: f.x, y: f.y })]
    } else {
        Seq::empty()
    };
    shot + text + seq![
        Signal::Splash(SplashEvent { x: f.x, y: f.y, fruit_type: f.fruit_type }),
        Signal::FruitSound(f.fruit_type),
        Signal::Sound(SoundType::BOOST_HIT),
    ]
}

/// Activating the boost. With no charge held this is a strict no-op: no
/// activation is created and nothing changes. Otherwise exactly one charge
/// is consumed, the boost sound plays, and the activation's target count is
/// the number of currently low fruit plus the fixed bonus.
pub fn spawn_boost(session: &mut Session, fruits: &Vec<Fruit>, signals: &mut Vec<Signal>) -> (b:
    Option<Boost>)
    requires
        old(session).wf(),
        fruits@.len() + BOOST_COUNT_BONUS <= usize::MAX,
    ensures
        final(session).wf(),
        old(session).boosts == 0 ==> {
            &&& b is None
            &&& *final(session) == *old(session)
            &&& final(signals)@ == old(signals)@
        },
        old(session).boosts > 0 ==> {
            &&& b == Some(
                Boost {
                    count: (spec_low_count(fruits@, 0) + BOOST_COUNT_BONUS) as usize,
                    clock: Clock {
                        duration_ms: BOOST_PACE_MS,
                        elapsed_ms: 0,
                        repeating: true,
                        fired: false,
                    },
                },
            )
            &&& final(session).boosts == old(session).boosts - 1
            &&& final(session).score == old(session).score
            &&& final(session).lives_left == old(session).lives_left
            &&& final(session).level == old(session).level
            &&& final(signals)@ == old(signals)@ + seq![Signal::Sound(SoundType::BOOST)]
        },
{
    if session.boosts == 0 {
        return None;
    }
    let ghost fs = fruits@;
    let mut count: usize = 0;
    let mut i: usize = 0;
    while i < fruits.len()
        invariant
            0 <= i <= fs.len(),
            fs == fruits@,
            count + spec_low_count(fs, i as int) == spec_low_count(fs, 0),
            0 <= count <= i,
        decreases fs.len() - i,
    {
        if fruits[i].y < BOOST_VISIBILITY_Y {
            count = count + 1;
        }
        i = i + 1;
    }
    signals.push(Signal::Sound(SoundType::BOOST));
    session.boosts = session.boosts - 1;
    Some(Boost { count: count + BOOST_COUNT_BONUS, clock: Clock::millis(BOOST_PACE_MS) })
}

/// One simulation tick of a running activation. The pace clock advances;
/// until it fires nothing else happens. On a firing tick the eligible fruit
/// lowest on the screen is sliced exactly as the attack path slices (score,
/// type rewards, splash and sounds), a boost shot is emitted toward the
/// player, and the remaining count goes down by one; with no eligible fruit
/// the count is untouched and nothing is emitted. The result says whether
/// the activation is finished: its count is spent, or a firing tick found
/// no target left to spend it on.
pub fn process_boost(
    boost: &mut Boost,
    delta_ms: u64,
    fruits: &mut Vec<Fruit>,
    session: &mut Session,
    signals: &mut Vec<Signal>,
) -> (removed: bool)
    requires
        old(boost).clock.wf(),
        old(boost).clock.repeating,
        old(boost).count > 0,
        delta_ms <= crate::components::MAX_DURATION_MS,
        old(session).wf(),
        forall|i: int| 0 <= i < old(fruits)@.len() ==> (#[trigger] old(fruits)@[i]).wf(),
        old(session).score < u32::MAX,
        old(session).boosts < u32::MAX,
    ensures
        final(session).wf(),
        final(boost).clock == spec_tick(old(boost).clock, delta_ms as int),
        final(boost).clock.wf(),
        forall|i: int| 0 <= i < final(fruits)@.len() ==> (#[trigger] final(fruits)@[i]).wf(),
        !spec_tick(old(boost).clock, delta_ms as int).fired ==> {
            &&& !removed
            &&& final(boost).count == old(boost).count
            &&& final(fruits)@ == old(fruits)@
            &&& *final(session) == *old(session)
            &&& final(signals)@ == old(signals)@
        },
        spec_tick(old(boost).clock, delta_ms as int).fired && !spec_any_eligible(old(fruits)@)
            ==> {
            &&& removed
            &&& final(boost).count == old(boost).count
            &&& final(fruits)@ == old(fruits)@
            &&& *final(session) == *old(session)
            &&& final(signals)@ == old(signals)@
        },
        spec_tick(old(boost).clock, delta_ms as int).fired && spec_any_eligible(old(fruits)@)
            ==> {
            &&& final(boost).count == old(boost).count - 1
            &&& removed == (final(boost).count == 0)
            &&& final(fruits)@.len() == old(fruits)@.len()
            &&& exists|j: int|
                {
                    &&& #[trigger] spec_is_boost_target(old(fruits)@, j)
                    &&& spec_slice_result(old(fruits)@[j], final(fruits)@[j])
                    &&& (forall|k: int|
                        0 <= k < old(fruits)@.len() && k != j ==> final(fruits)@[k] == old(
                            fruits,
                        )@[k])
                    &&& final(session).lives_left == spec_reward_lives(
                        old(fruits)@[j],
                        old(session).lives_left as int,
                    )
                    &&& final(session).boosts == spec_reward_boosts(
                        old(fruits)@[j],
                        old(session).boosts as int,
                    )
                    &&& final(signals)@ == old(signals)@ + spec_boost_signals(
                        old(fruits)@[j],
                        old(session).lives_left as int,
                    )
                }
            &&& final(session).score == old(session).score + 1
            &&& final(session).level == old(session).level
        },
{
    boost.clock.tick(delta_ms);
    if !boost.clock.finished() {
        return false;
    }
    let ghost fs = fruits@;
    let mut best: usize = 0;
    let mut found = false;
    let mut i: usize = 0;
    while i < fruits.len()
        invariant
            0 <= i <= fs.len(),
            fs == fruits@,
            !found ==> forall|k: int| 0 <= k < i ==> !spec_boost_eligible(#[trigger] fs[k]),
            found ==> {
                &&& 0 <= best < i
                &&& spec_boost_eligible(fs[best as int])
                &&& forall|k: int|
                    0 <= k < i && spec_boost_eligible(#[trigger] fs[k]) ==> fs[best as int].y
                        <= fs[k].y
                &&& forall|k: int|
                    0 <= k < best && spec_boost_eligible(#[trigger] fs[k]) ==> fs[best as int].y
                        < fs[k].y
            },
        decreases fs.len() - i,
    {
        let f = &fruits[i];
        if !f.sliced && f.y > DESPAWN_FLOOR - BOOST_SAFETY_MARGIN {
            if !found || f.y < fruits[best].y {
                best = i;
                found = true;
            }
        }
        i = i + 1;
    }
    if !found {
        proof {
            assert(!spec_any_eligible(fs));
        }
        return true;
    }
    proof {
        assert(spec_any_eligible(fs));
        assert(spec_is_boost_target(fs, best as int));
    }
    let f = fruits[best];
    session.score = session.score + 1;
    boost.count = boost.count - 1;
    signals.push(
        Signal::BoostShot(
            BoostEvent {
                source_x: f.x,
                source_y: f.y,
                dest_x: BOOST_DEST_X,
                dest_y: BOOST_DEST_Y,
            },
        ),
    );
    let mut sliced_fruit = f;
    sliced_fruit.slice();
    fruits.set(best, sliced_fruit);
    if f.fruit_type == FruitType::PINEAPPLE {
        session.boosts = session.boosts + 1;
        signals.push(Signal::Text(TextEvent { text: RewardText::BoostBonus, x: f.x, y: f.y }));
    } else if f.fruit_type == FruitType::POME && session.lives_left < MAX_LIVES {
        session.lives_left = session.lives_left + 1;
        signals.push(Signal::Text(TextEvent { text: RewardText::LifeBonus, x: f.x, y: f.y }));
    }
    signals.push(Signal::Splash(SplashEvent { x: f.x, y: f.y, fruit_type: f.fruit_type }));
    signals.push(Signal::FruitSound(f.fruit_type));
    signals.push(Signal::Sound(SoundType::BOOST_HIT));
    proof {
        assert(signals@ =~= old(signals)@ + spec_boost_signals(fs[best as int], old(
            session,
        ).lives_left as int));
    }
    boost.count == 0
}

} // verus!
