//! The falling fruit: its simulation state, the slicing primitive, per-tick
//! position integration, and despawning below the floor with its penalty.
//!
//! Positions are in thousandths of a world unit; fall and spread speeds are
//! in world units per second, so `speed * delta_ms` is exactly the position
//! change in thousandths.

#![allow(non_camel_case_types)]

use vstd::prelude::*;
use vstd::pervasive::VecAdditionalExecFns;

use crate::components::MAX_DURATION_MS;
use crate::events::ChefHitEvent;
use crate::events::RewardText;
use crate::events::Signal;
use crate::events::SplashEvent;
use crate::events::TextEvent;
use crate::events::WaveEvent;
use crate::random::randint;
use crate::session::Session;
use crate::session::MAX_LIVES;
use crate::sound::SoundType;

verus! {

/// The fall speed every fruit starts with, in world units per second.
pub const FALL_SPEED: i32 = 400;

/// Slicing a fruit speeds its debris up by this much (POME excepted).
pub const SLICE_SPEED_BONUS: i32 = 100;

/// Fruit whose `y` reaches this line is removed from the simulation.
pub const DESPAWN_FLOOR: i64 = -480_000;

/// Positions saturate at this numeric limit of the arena, far outside the
/// visible area.
pub const POS_LIMIT: i64 = 1_000_000_000;

/// The kinds of food that fall; the last two are the rare power-ups.
#[derive(PartialEq, Eq, Debug, Clone, Copy, Structural)]
pub enum FruitType {
    APPLE,
    STRAWBERRY,
    ORANGE,
    WATERMELON,
    PINEAPPLE,
    BANANA,
    POME,
}

/// One falling fruit. `angle` is in tenths of a degree; `rotation_speed`
/// is the per-tick change of `angle`.
#[derive(Clone, Copy, Debug, PartialEq, Eq, Structural)]
pub struct Fruit {
    pub x: i64,
    pub y: i64,
    pub angle: i32,
    pub rotation_speed: i32,
    pub spread_speed: i32,
    pub fall_speed: i32,
    pub fruit_type: FruitType,
    pub sliced: bool,
}

impl Fruit {
    /// The fruit invariant: positions within the arena's numeric limits,
    /// speeds within the ranges spawning and slicing can produce, and no
    /// slice effects before the fruit is sliced.
    pub open spec fn wf(self) -> bool {
        &&& -POS_LIMIT <= self.x <= POS_LIMIT
        &&& -POS_LIMIT <= self.y <= POS_LIMIT
        &&& 0 <= self.angle < 3600
        &&& -15 <= self.rotation_speed <= 19
        &&& -500 <= self.spread_speed <= 500
        &&& FALL_SPEED <= self.fall_speed <= FALL_SPEED + SLICE_SPEED_BONUS
        &&& !self.sliced ==> self.spread_speed == 0
        &&& !self.sliced ==> self.fall_speed == FALL_SPEED
    }

    /// A fresh, unsliced apple at the given position, spinning at a random
    /// rate; the spawner overrides the type for other draws.
    pub fn new(x: i64, y: i64) -> (f: Fruit)
        requires
            -POS_LIMIT <= x <= POS_LIMIT,
            -POS_LIMIT <= y <= POS_LIMIT,
        ensures
            f.wf(),
            f.x == x,
            f.y == y,
            f.angle == 0,
            -15 <= f.rotation_speed <= 19,
            f.spread_speed == 0,
            f.fall_speed == FALL_SPEED,
            f.fruit_type == FruitType::APPLE,
            !f.sliced,
    {
        Fruit {
            x,
            y,
            angle: 0,
            rotation_speed: randint(-15, 20),
            spread_speed: 0,
            fall_speed: FALL_SPEED,
            fruit_type: FruitType::APPLE,
            sliced: false,
        }
    }

    /// The slicing primitive, shared by the attack path and the boost
    /// ability: marks the fruit sliced, speeds its fall up by the fixed
    /// bonus (POME keeps its base speed), and scatters it sideways at a
    /// random spread speed. Everything else is untouched, and the `sliced`
    /// guard in every caller makes this happen at most once per fruit.
    pub fn slice(&mut self)
        requires
            old(self).wf(),
            !old(self).sliced,
        ensures
            final(self).wf(),
            final(self).sliced,
            final(self).fall_speed == old(self).fall_speed + if old(self).fruit_type
                == FruitType::POME {
                0
            } else {
                SLICE_SPEED_BONUS as int
            },
            -500 <= final(self).spread_speed <= 400,
            final(self).x == old(self).x,
            final(self).y == old(self).y,
            final(self).angle == old(self).angle,
            final(self).rotation_speed == old(self).rotation_speed,
            final(self).fruit_type == old(self).fruit_type,
    {
        if self.fruit_type != FruitType::POME {
            self.fall_speed = self.fall_speed + SLICE_SPEED_BONUS;
        }
        self.spread_speed = randint(-5, 5) * 100;
        self.sliced = true;
    }
}

/// Spread decays geometrically toward rest: 95 percent of its previous
/// magnitude each tick, rounded toward zero.
pub open spec fn spec_decay_spread(s: int) -> int {
    if s >= 0 {
        s * 95 / 100
    } else {
        -((-s) * 95 / 100)
    }
}

/// Saturates a position at the arena's numeric limits.
pub open spec fn spec_clamp_pos(v: int) -> int {
    if v < -POS_LIMIT {
        -POS_LIMIT as int
    } else if v > POS_LIMIT {
        POS_LIMIT as int
    } else {
        v
    }
}

/// One tick of physics for one fruit: the fall moves it down, the angle
/// advances by its rotation speed (wrapping a full turn), the spread decays
/// and then drifts the fruit sideways.
pub open spec fn spec_fall_one(f: Fruit, delta_ms: int) -> Fruit {
    let y = spec_clamp_pos(f.y - f.fall_speed * delta_ms);
    let turned = f.angle + f.rotation_speed;
    let angle = if turned < 0 {
        turned + 3600
    } else if turned >= 3600 {
        turned - 3600
    } else {
        turned
    };
    let spread_speed = if f.spread_speed != 0 {
        spec_decay_spread(f.spread_speed as int)
    } else {
        0
    };
    let x = spec_clamp_pos(f.x + spread_speed * delta_ms);
    Fruit {
        x: x as i64,
        y: y as i64,
        angle: angle as i32,
        spread_speed: spread_speed as i32,
        ..f
    }
}

fn fall_one(f: &Fruit, delta_ms: u64) -> (r: Fruit)
    requires
        f.wf(),
        delta_ms <= MAX_DURATION_MS,
    ensures
        r == spec_fall_one(*f, delta_ms as int),
        r.wf(),
{
    let mut r = *f;
    let speed: i64 = f.fall_speed as i64;
    let dt: i64 = delta_ms as i64;
    proof {
        assert(0 <= speed * dt <= 500 * 86_400_000) by (nonlinear_arith)
            requires
                400 <= speed <= 500,
                0 <= dt <= 86_400_000,
        {}
    }
    let drop: i64 = speed * dt;
    let y = f.y - drop;
    r.y = if y < -POS_LIMIT {
        -POS_LIMIT
    } else {
        y
    };
    let turned = f.angle + f.rotation_speed;
    r.angle = if turned < 0 {
        turned + 3600
    } else if turned >= 3600 {
        turned - 3600
    } else {
        turned
    };
    if f.spread_speed > 0 {
        r.spread_speed = f.spread_speed * 95 / 100;
    } else if f.spread_speed < 0 {
        r.spread_speed = -((-f.spread_speed) * 95 / 100);
    }
    let spread: i64 = r.spread_speed as i64;
    proof {
        assert(-500 * 86_400_000 <= spread * dt <= 500 * 86_400_000) by (nonlinear_arith)
            requires
                -500 <= spread <= 500,
                0 <= dt <= 86_400_000,
        {}
    }
    let drift: i64 = spread * dt;
    let x = f.x + drift;
    r.x = if x < -POS_LIMIT {
        -POS_LIMIT
    } else if x > POS_LIMIT {
        POS_LIMIT
    } else {
        x
    };
    r
}

/// One tick of physics for every live fruit, in place and in order.
pub fn fall(fruits: &mut Vec<Fruit>, delta_ms: u64)
    requires
        forall|i: int| 0 <= i < old(fruits)@.len() ==> (#[trigger] old(fruits)@[i]).wf(),
        delta_ms <= MAX_DURATION_MS,
    ensures
        final(fruits)@.len() == old(fruits)@.len(),
        forall|i: int|
            0 <= i < old(fruits)@.len() ==> #[trigger] final(fruits)@[i] == spec_fall_one(
                old(fruits)@[i],
                delta_ms as int,
            ),
        forall|i: int| 0 <= i < final(fruits)@.len() ==> (#[trigger] final(fruits)@[i]).wf(),
{
    let mut i: usize = 0;
    while i < fruits.len()
        invariant
            0 <= i <= fruits@.len(),
            fruits@.len() == old(fruits)@.len(),
            delta_ms <= MAX_DURATION_MS,
            forall|k: int| i <= k < fruits@.len() ==> #[trigger] fruits@[k] == old(fruits)@[k],
            forall|k: int| 0 <= k < fruits@.len() ==> (#[trigger] old(fruits)@[k]).wf(),
            forall|k: int|
                0 <= k < i ==> #[trigger] fruits@[k] == spec_fall_one(
                    old(fruits)@[k],
                    delta_ms as int,
                ),
            forall|k: int| 0 <= k < i ==> (#[trigger] fruits@[k]).wf(),
        decreases fruits@.len() - i,
    {
        let updated = fall_one(&fruits[i], delta_ms);
        fruits.set(i, updated);
        i = i + 1;
    }
}

/// Whether a fruit has crossed the despawn floor.
pub open spec fn fallen(f: Fruit) -> bool {
    f.y <= DESPAWN_FLOOR
}

/// Whether a despawning fruit costs a life: it was never sliced.
pub open spec fn missed(f: Fruit) -> bool {
    fallen(f) && !f.sliced
}

/// The fruits that remain after despawning, from position `i` on: those
/// above the floor, in their original order.
pub open spec fn spec_survivors(fs: Seq<Fruit>, i: int) -> Seq<Fruit>
    decreases fs.len() - i,
{
    if i < 0 || i >= fs.len() {
        Seq::empty()
    } else if fallen(fs[i]) {
        spec_survivors(fs, i + 1)
    } else {
        seq![fs[i]] + spec_survivors(fs, i + 1)
    }
}

/// The penalty signals despawning emits, from position `i` on: a wave and
/// a penalty sound for each missed fruit, in order.
pub open spec fn spec_penalty_signals(fs: Seq<Fruit>, i: int) -> Seq<Signal>
    decreases fs.len() - i,
{
    if i < 0 || i >= fs.len() {
        Seq::empty()
    } else if missed(fs[i]) {
        seq![Signal::Wave(WaveEvent(fs[i].x)), Signal::Sound(SoundType::PENALTY)]
            + spec_penalty_signals(fs, i + 1)
    } else {
        spec_penalty_signals(fs, i + 1)
    }
}

/// How many fruits from position `i` on are missed.
pub open spec fn spec_missed_count(fs: Seq<Fruit>, i: int) -> int
    decreases fs.len() - i,
{
    if i < 0 || i >= fs.len() {
        0
    } else {
        (if missed(fs[i]) {
            1int
        } else {
            0int
        }) + spec_missed_count(fs, i + 1)
    }
}

/// Removes every fruit at or below the despawn floor. Each removed fruit
/// that was never sliced costs exactly one life (never below zero) and
/// emits a penalty wave and sound; sliced debris despawns silently. Lives
/// change in no other way here, and surviving fruit are untouched.
pub fn despawn_fallen_fruits(fruits: &mut Vec<Fruit>, session: &mut Session, signals: &mut Vec<
    Signal,
>)
    requires
        old(session).wf(),
    ensures
        final(session).wf(),
        final(fruits)@ == spec_survivors(old(fruits)@, 0),
        final(signals)@ == old(signals)@ + spec_penalty_signals(old(fruits)@, 0),
        final(session).lives_left == if spec_missed_count(old(fruits)@, 0) >= old(
            session,
        ).lives_left {
            0
        } else {
            old(session).lives_left - spec_missed_count(old(fruits)@, 0)
        },
        final(session).score == old(session).score,
        final(session).boosts == old(session).boosts,
        final(session).level == old(session).level,
{
    let ghost fs = fruits@;
    let mut result: Vec<Fruit> = Vec::new();
    let ghost mut missed_so_far: int = 0;
    let mut i: usize = 0;
    proof {
        assert(result@ + spec_survivors(fs, 0) =~= spec_survivors(fs, 0));
        assert(signals@ + spec_penalty_signals(fs, 0) =~= old(signals)@ + spec_penalty_signals(
            fs,
            0,
        ));
    }
    while i < fruits.len()
        invariant
            0 <= i <= fs.len(),
            fruits@ == fs,
            old(session).wf(),
            session.wf(),
            spec_survivors(fs, 0) =~= result@ + spec_survivors(fs, i as int),
            old(signals)@ + spec_penalty_signals(fs, 0) =~= signals@ + spec_penalty_signals(
                fs,
                i as int,
            ),
            spec_missed_count(fs, 0) == missed_so_far + spec_missed_count(fs, i as int),
            0 <= missed_so_far,
            session.lives_left == if missed_so_far >= old(session).lives_left {
                0int
            } else {
                old(session).lives_left - missed_so_far
            },
            session.score == old(session).score,
            session.boosts == old(session).boosts,
            session.level == old(session).level,
        decreases fs.len() - i,
    {
        let f = fruits[i];
        if f.y <= DESPAWN_FLOOR {
            if !f.sliced {
                if session.lives_left > 0 {
                    session.lives_left = session.lives_left - 1;
                }
                signals.push(Signal::Wave(WaveEvent(f.x)));
                signals.push(Signal::Sound(SoundType::PENALTY));
                proof {
                    missed_so_far = missed_so_far + 1;
                }
            }
        } else {
            result.push(f);
        }
        i = i + 1;
        proof {
            assert(spec_survivors(fs, 0) =~= result@ + spec_survivors(fs, i as int));
            assert(old(signals)@ + spec_penalty_signals(fs, 0) =~= signals@ + spec_penalty_signals(
                fs,
                i as int,
            ));
        }
    }
    *fruits = result;
    proof {
        assert(spec_survivors(fs, i as int) =~= Seq::<Fruit>::empty());
        assert(spec_penalty_signals(fs, i as int) =~= Seq::<Signal>::empty());
        assert(fruits@ =~= spec_survivors(fs, 0));
        assert(signals@ =~= old(signals)@ + spec_penalty_signals(fs, 0));
    }
}


/// Half the attack hitbox, around the attack position.
pub const ATTACK_HALF_X: i64 = 20_000;

pub const ATTACK_HALF_Y: i64 = 20_000;

/// Half the fruit hitbox, around the fruit position.
pub const FRUIT_HALF_X: i64 = 70_000;

pub const FRUIT_HALF_Y: i64 = 110_000;

/// The centers' distance below which the two boxes overlap.
pub const HIT_SPAN_X: i64 = FRUIT_HALF_X + ATTACK_HALF_X;

pub const HIT_SPAN_Y: i64 = FRUIT_HALF_Y + ATTACK_HALF_Y;

/// Axis-aligned overlap between the attack hitbox at `(ex, ey)` and the
/// fruit's hitbox: strictly closer than the two half-extents on both axes.
/// Rotation is cosmetic and plays no part.
pub open spec fn spec_overlap(f: Fruit, ex: int, ey: int) -> bool {
    &&& -HIT_SPAN_X < f.x - ex < HIT_SPAN_X
    &&& -HIT_SPAN_Y < f.y - ey < HIT_SPAN_Y
}

/// A fruit the attack slices now: overlapping and not yet sliced.
pub open spec fn spec_newly_sliced(f: Fruit, ex: int, ey: int) -> bool {
    spec_overlap(f, ex, ey) && !f.sliced
}

fn overlaps(f: &Fruit, ex: i64, ey: i64) -> (r: bool)
    requires
        f.wf(),
        -POS_LIMIT <= ex <= POS_LIMIT,
        -POS_LIMIT <= ey <= POS_LIMIT,
    ensures
        r == spec_overlap(*f, ex as int, ey as int),
{
    f.x - ex < HIT_SPAN_X && ex - f.x < HIT_SPAN_X && f.y - ey < HIT_SPAN_Y && ey - f.y
        < HIT_SPAN_Y
}

/// How many fruits from position `i` on the attack slices now.
pub open spec fn spec_hit_count(fs: Seq<Fruit>, ex: int, ey: int, i: int) -> int
    decreases fs.len() - i,
{
    if i < 0 || i >= fs.len() {
        0
    } else {
        (if spec_newly_sliced(fs[i], ex, ey) {
            1int
        } else {
            0int
        }) + spec_hit_count(fs, ex, ey, i + 1)
    }
}

/// How many newly sliced fruits from position `i` on are pineapples, each
/// of which rewards one boost charge.
pub open spec fn spec_boost_rewards(fs: Seq<Fruit>, ex: int, ey: int, i: int) -> int
    decreases fs.len() - i,
{
    if i < 0 || i >= fs.len() {
        0
    } else {
        (if spec_newly_sliced(fs[i], ex, ey) && fs[i].fruit_type == FruitType::PINEAPPLE {
            1int
        } else {
            0int
        }) + spec_boost_rewards(fs, ex, ey, i + 1)
    }
}

/// How many newly sliced fruits from position `i` on are POMEs, each of
/// which rewards one life while lives are below their ceiling.
pub open spec fn spec_pome_rewards(fs: Seq<Fruit>, ex: int, ey: int, i: int) -> int
    decreases fs.len() - i,
{
    if i < 0 || i >= fs.len() {
        0
    } else {
        (if spec_newly_sliced(fs[i], ex, ey) && fs[i].fruit_type == FruitType::POME {
            1int
        } else {
            0int
        }) + spec_pome_rewards(fs, ex, ey, i + 1)
    }
}

/// The lives after one fruit's reward: a newly sliced POME restores one
/// life, but never beyond the ceiling.
pub open spec fn spec_lives_step(f: Fruit, ex: int, ey: int, lives: int) -> int {
    if spec_newly_sliced(f, ex, ey) && f.fruit_type == FruitType::POME && lives < MAX_LIVES {
        lives + 1
    } else {
        lives
    }
}

/// The lives after processing fruits from position `i` on.
pub open spec fn spec_lives_after(fs: Seq<Fruit>, ex: int, ey: int, lives: int, i: int) -> int
    decreases fs.len() - i,
{
    if i < 0 || i >= fs.len() {
        lives
    } else {
        spec_lives_after(fs, ex, ey, spec_lives_step(fs[i], ex, ey, lives), i + 1)
    }
}

/// POME rewards clamp rather than overflow: processing the fruits takes
/// the lives to the smaller of `lives + rewards` and the ceiling, so lives
/// never leave the range up to `MAX_LIVES`.
pub proof fn lemma_lives_clamped(fs: Seq<Fruit>, ex: int, ey: int, lives: int, i: int)
    requires
        0 <= lives <= MAX_LIVES,
    ensures
        spec_lives_after(fs, ex, ey, lives, i) == if lives + spec_pome_rewards(fs, ex, ey, i)
            <= MAX_LIVES {
            lives + spec_pome_rewards(fs, ex, ey, i)
        } else {
            MAX_LIVES as int
        },
    decreases fs.len() - i,
{
    if 0 <= i < fs.len() {
        assert(spec_pome_rewards(fs, ex, ey, i) == (if spec_newly_sliced(fs[i], ex, ey)
            && fs[i].fruit_type == FruitType::POME {
            1int
        } else {
            0int
        }) + spec_pome_rewards(fs, ex, ey, i + 1));
        lemma_pome_rewards_nonneg(fs, ex, ey, i + 1);
        lemma_lives_clamped(fs, ex, ey, spec_lives_step(fs[i], ex, ey, lives), i + 1);
    } else {
        assert(spec_pome_rewards(fs, ex, ey, i) == 0);
        assert(spec_lives_after(fs, ex, ey, lives, i) == lives);
    }
}

proof fn lemma_pome_rewards_nonneg(fs: Seq<Fruit>, ex: int, ey: int, i: int)
    ensures
        spec_pome_rewards(fs, ex, ey, i) >= 0,
    decreases fs.len() - i,
{
    if 0 <= i < fs.len() {
        lemma_pome_rewards_nonneg(fs, ex, ey, i + 1);
    }
}

/// The signals the attack loop emits for fruits from position `i` on, with
/// `lives` as they stand when position `i` is reached: reward text for a
/// newly sliced pineapple, or for a newly sliced POME while lives are below
/// the ceiling, then a splash for every overlapped fruit whether or not it
/// was already sliced.
pub open spec fn spec_hit_events(fs: Seq<Fruit>, ex: int, ey: int, lives: int, i: int) -> Seq<
    Signal,
>
    decreases fs.len() - i,
{
    if i < 0 || i >= fs.len() {
        Seq::empty()
    } else {
        let f = fs[i];
        let here = if spec_newly_sliced(f, ex, ey) {
            let text = if f.fruit_type == FruitType::PINEAPPLE {
                seq![Signal::Text(TextEvent { text: RewardText::BoostBonus, x: f.x, y: f.y })]
            } else if f.fruit_type == FruitType::POME && lives < MAX_LIVES {
                seq![Signal::Text(TextEvent { text: RewardText::LifeBonus, x: f.x, y: f.y })]
            } else {
                Seq::empty()
            };
            text + seq![
                Signal::Splash(SplashEvent { x: f.x, y: f.y, fruit_type: f.fruit_type }),
            ]
        } else if spec_overlap(f, ex, ey) {
            seq![Signal::Splash(SplashEvent { x: f.x, y: f.y, fruit_type: f.fruit_type })]
        } else {
            Seq::empty()
        };
        here + spec_hit_events(fs, ex, ey, spec_lives_step(f, ex, ey, lives), i + 1)
    }
}

/// The per-fruit slice sounds the attack emits after its loop, one for each
/// newly sliced fruit, in order.
pub open spec fn spec_slice_sounds(fs: Seq<Fruit>, ex: int, ey: int, i: int) -> Seq<Signal>
    decreases fs.len() - i,
{
    if i < 0 || i >= fs.len() {
        Seq::empty()
    } else if spec_newly_sliced(fs[i], ex, ey) {
        seq![Signal::FruitSound(fs[i].fruit_type)] + spec_slice_sounds(fs, ex, ey, i + 1)
    } else {
        spec_slice_sounds(fs, ex, ey, i + 1)
    }
}

/// The slice sounds for the collected types of the newly sliced fruits.
pub open spec fn spec_sounds_of(ts: Seq<FruitType>) -> Seq<Signal>
    decreases ts.len(),
{
    if ts.len() == 0 {
        Seq::empty()
    } else {
        spec_sounds_of(ts.drop_last()).push(Signal::FruitSound(ts.last()))
    }
}

/// How one attack leaves one fruit: a fruit it slices now carries the slice
/// effects and nothing else changed; every other fruit, an already sliced
/// one in particular, is left exactly as it was, so no fruit is ever
/// rewarded twice.
pub open spec fn spec_fruit_after_hit(pre: Fruit, post: Fruit, ex: int, ey: int) -> bool {
    if spec_newly_sliced(pre, ex, ey) {
        &&& post.sliced
        &&& post.fall_speed == pre.fall_speed + if pre.fruit_type == FruitType::POME {
            0
        } else {
            SLICE_SPEED_BONUS as int
        }
        &&& -500 <= post.spread_speed <= 400
        &&& post.x == pre.x
        &&& post.y == pre.y
        &&& post.angle == pre.angle
        &&& post.rotation_speed == pre.rotation_speed
        &&& post.fruit_type == pre.fruit_type
    } else {
        post == pre
    }
}

/// One discrete attack against every live fruit. Every overlapped fruit
/// that was not yet sliced is sliced now: one point of score each, a boost
/// charge per pineapple, a life per POME up to the ceiling, with reward
/// text at the fruit. Every overlapped fruit splashes regardless. The
/// attack then sounds one slash always, one hit sound if anything was newly
/// sliced, and one slice sound per newly sliced fruit.
pub fn hit(event: &ChefHitEvent, fruits: &mut Vec<Fruit>, session: &mut Session, signals: &mut Vec<
    Signal,
>)
    requires
        old(session).wf(),
        -POS_LIMIT <= event.x <= POS_LIMIT,
        -POS_LIMIT <= event.y <= POS_LIMIT,
        forall|i: int| 0 <= i < old(fruits)@.len() ==> (#[trigger] old(fruits)@[i]).wf(),
        old(session).score + old(fruits)@.len() <= u32::MAX,
        old(session).boosts + old(fruits)@.len() <= u32::MAX,
    ensures
        final(session).wf(),
        final(fruits)@.len() == old(fruits)@.len(),
        forall|i: int|
            0 <= i < old(fruits)@.len() ==> spec_fruit_after_hit(
                old(fruits)@[i],
                #[trigger] final(fruits)@[i],
                event.x as int,
                event.y as int,
            ),
        forall|i: int| 0 <= i < final(fruits)@.len() ==> (#[trigger] final(fruits)@[i]).wf(),
        final(session).score == old(session).score + spec_hit_count(
            old(fruits)@,
            event.x as int,
            event.y as int,
            0,
        ),
        final(session).boosts == old(session).boosts + spec_boost_rewards(
            old(fruits)@,
            event.x as int,
            event.y as int,
            0,
        ),
        final(session).lives_left == spec_lives_after(
            old(fruits)@,
            event.x as int,
            event.y as int,
            old(session).lives_left as int,
            0,
        ),
        final(session).level == old(session).level,
        final(signals)@ == old(signals)@ + spec_hit_events(
            old(fruits)@,
            event.x as int,
            event.y as int,
            old(session).lives_left as int,
            0,
        ) + seq![Signal::Sound(SoundType::SLASH)] + (if spec_hit_count(
            old(fruits)@,
            event.x as int,
            event.y as int,
            0,
        ) > 0 {
            seq![Signal::Sound(SoundType::HIT)]
        } else {
            Seq::<Signal>::empty()
        }) + spec_slice_sounds(old(fruits)@, event.x as int, event.y as int, 0),
{
    let ghost fs = fruits@;
    let ghost ex = event.x as int;
    let ghost ey = event.y as int;
    let ghost lives0 = old(session).lives_left as int;
    let mut hitted: Vec<FruitType> = Vec::new();
    let ghost mut hit_so_far: int = 0;
    let ghost mut boosts_so_far: int = 0;
    let mut i: usize = 0;
    proof {
        assert(old(signals)@ + spec_hit_events(fs, ex, ey, lives0, 0) =~= signals@
            + spec_hit_events(fs, ex, ey, lives0, 0));
        assert(spec_sounds_of(hitted@) =~= Seq::<Signal>::empty());
        assert(spec_slice_sounds(fs, ex, ey, 0) =~= spec_sounds_of(hitted@) + spec_slice_sounds(
            fs,
            ex,
            ey,
            0,
        ));
    }
    while i < fruits.len()
        invariant
            0 <= i <= fs.len(),
            fs == old(fruits)@,
            ex == event.x as int,
            ey == event.y as int,
            lives0 == old(session).lives_left as int,
            fruits@.len() == fs.len(),
            old(session).wf(),
            session.wf(),
            -POS_LIMIT <= ex <= POS_LIMIT,
            -POS_LIMIT <= ey <= POS_LIMIT,
            old(session).score + fs.len() <= u32::MAX,
            old(session).boosts + fs.len() <= u32::MAX,
            forall|k: int| 0 <= k < fs.len() ==> (#[trigger] fs[k]).wf(),
            forall|k: int| i <= k < fs.len() ==> #[trigger] fruits@[k] == fs[k],
            forall|k: int|
                0 <= k < i ==> spec_fruit_after_hit(fs[k], #[trigger] fruits@[k], ex, ey),
            forall|k: int| 0 <= k < i ==> (#[trigger] fruits@[k]).wf(),
            0 <= hit_so_far <= i,
            0 <= boosts_so_far <= hit_so_far,
            spec_hit_count(fs, ex, ey, 0) == hit_so_far + spec_hit_count(fs, ex, ey, i as int),
            spec_boost_rewards(fs, ex, ey, 0) == boosts_so_far + spec_boost_rewards(
                fs,
                ex,
                ey,
                i as int,
            ),
            session.score == old(session).score + hit_so_far,
            session.boosts == old(session).boosts + boosts_so_far,
            session.level == old(session).level,
            spec_lives_after(fs, ex, ey, lives0, 0) == spec_lives_after(
                fs,
                ex,
                ey,
                session.lives_left as int,
                i as int,
            ),
            old(signals)@ + spec_hit_events(fs, ex, ey, lives0, 0) =~= signals@ + spec_hit_events(
                fs,
                ex,
                ey,
                session.lives_left as int,
                i as int,
            ),
            hitted@.len() == hit_so_far,
            spec_slice_sounds(fs, ex, ey, 0) =~= spec_sounds_of(hitted@) + spec_slice_sounds(
                fs,
                ex,
                ey,
                i as int,
            ),
        decreases fs.len() - i,
    {
        let ghost lives_before = session.lives_left as int;
        let f = fruits[i];
        proof {
            assert(f == fs[i as int]);
        }
        if overlaps(&f, event.x, event.y) {
            if !f.sliced {
                session.score = session.score + 1;
                let mut sliced_fruit = f;
                sliced_fruit.slice();
                fruits.set(i, sliced_fruit);
                let ghost prev_hitted = hitted@;
                hitted.push(f.fruit_type);
                proof {
                    hit_so_far = hit_so_far + 1;
                    assert(hitted@.drop_last() =~= prev_hitted);
                    assert(hitted@.last() == f.fruit_type);
                    assert(spec_sounds_of(hitted@) =~= spec_sounds_of(prev_hitted).push(
                        Signal::FruitSound(f.fruit_type),
                    ));
                }
                if f.fruit_type == FruitType::PINEAPPLE {
                    session.boosts = session.boosts + 1;
                    proof {
                        boosts_so_far = boosts_so_far + 1;
                    }
                    signals.push(
                        Signal::Text(TextEvent { text: RewardText::BoostBonus, x: f.x, y: f.y }),
                    );
                } else if f.fruit_type == FruitType::POME && session.lives_left < MAX_LIVES {
                    session.lives_left = session.lives_left + 1;
                    signals.push(
                        Signal::Text(TextEvent { text: RewardText::LifeBonus, x: f.x, y: f.y }),
                    );
                }
            }
            signals.push(Signal::Splash(SplashEvent { x: f.x, y: f.y, fruit_type: f.fruit_type }));
        }
        i = i + 1;
        proof {
            assert(spec_lives_after(fs, ex, ey, lives_before, i - 1) == spec_lives_after(
                fs,
                ex,
                ey,
                spec_lives_step(fs[i - 1], ex, ey, lives_before),
                i as int,
            ));
            assert(session.lives_left as int == spec_lives_step(fs[i - 1], ex, ey, lives_before));
            assert(old(signals)@ + spec_hit_events(fs, ex, ey, lives0, 0) =~= signals@
                + spec_hit_events(fs, ex, ey, session.lives_left as int, i as int));
            assert(spec_slice_sounds(fs, ex, ey, 0) =~= spec_sounds_of(hitted@)
                + spec_slice_sounds(fs, ex, ey, i as int));
        }
    }
    proof {
        assert(spec_hit_events(fs, ex, ey, session.lives_left as int, i as int) =~= Seq::<
            Signal,
        >::empty());
        assert(spec_slice_sounds(fs, ex, ey, i as int) =~= Seq::<Signal>::empty());
        assert(spec_hit_count(fs, ex, ey, i as int) == 0);
        assert(spec_boost_rewards(fs, ex, ey, i as int) == 0);
        assert(signals@ =~= old(signals)@ + spec_hit_events(fs, ex, ey, lives0, 0));
        assert(spec_sounds_of(hitted@) =~= spec_slice_sounds(fs, ex, ey, 0));
    }
    let ghost mid = signals@;
    signals.push(Signal::Sound(SoundType::SLASH));
    let any_hit = hitted.len() > 0;
    if any_hit {
        signals.push(Signal::Sound(SoundType::HIT));
    }
    let ghost base = signals@;
    let mut k: usize = 0;
    proof {
        assert(hitted@.take(0) =~= Seq::<FruitType>::empty());
        assert(spec_sounds_of(hitted@.take(0)) =~= Seq::<Signal>::empty());
        assert(signals@ =~= base + spec_sounds_of(hitted@.take(0)));
    }
    while k < hitted.len()
        invariant
            0 <= k <= hitted@.len(),
            signals@ =~= base + spec_sounds_of(hitted@.take(k as int)),
        decreases hitted@.len() - k,
    {
        signals.push(Signal::FruitSound(hitted[k]));
        k = k + 1;
        proof {
            assert(hitted@.take(k as int).drop_last() =~= hitted@.take(k as int - 1));
            assert(hitted@.take(k as int).last() == hitted@[k as int - 1]);
            assert(signals@ =~= base + spec_sounds_of(hitted@.take(k as int)));
        }
    }
    proof {
        assert(hitted@.take(k as int) =~= hitted@);
        assert(base =~= mid + seq![Signal::Sound(SoundType::SLASH)] + (if spec_hit_count(
            fs,
            ex,
            ey,
            0,
        ) > 0 {
            seq![Signal::Sound(SoundType::HIT)]
        } else {
            Seq::<Signal>::empty()
        }));
        assert(signals@ =~= old(signals)@ + spec_hit_events(fs, ex, ey, lives0, 0) + seq![
            Signal::Sound(SoundType::SLASH),
        ] + (if spec_hit_count(fs, ex, ey, 0) > 0 {
            seq![Signal::Sound(SoundType::HIT)]
        } else {
            Seq::<Signal>::empty()
        }) + spec_slice_sounds(fs, ex, ey, 0));
    }
}

} // verus!
