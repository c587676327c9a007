//! The player character: walking left and right inside the play area,
//! launching an attack from the player's position, and speeding up as the
//! levels progress.

use vstd::prelude::*;

use crate::components::MAX_DURATION_MS;
use crate::events::ChefHitEvent;
use crate::fruit::POS_LIMIT;

verus! {

/// The player's walking speed at the start, in world units per second.
pub const SPEED: i32 = 900;

/// Each level-up adds this much walking speed.
pub const SPEED_UPDATE: i32 = 10;

/// Walking speed saturates here rather than growing without bound.
pub const SPEED_CAP: i32 = 1_000_000;

/// The player can walk no further than these lines, in thousandths of a
/// world unit.
pub const CHEF_MIN_X: i64 = -500_000;

pub const CHEF_MAX_X: i64 = 500_000;

/// The height the player stands at, the anchor of every attack.
pub const CHEF_Y: i64 = -220_000;

/// The player character: its horizontal position and walking speed.
#[derive(Clone, Copy, Debug, PartialEq, Eq, Structural)]
pub struct Player {
    pub x: i64,
    pub speed: i32,
}

impl Player {
    pub open spec fn wf(self) -> bool {
        &&& -POS_LIMIT <= self.x <= POS_LIMIT
        &&& SPEED <= self.speed <= SPEED_CAP
    }

    /// The player at the center of the stage at base speed.
    pub fn new() -> (p: Player)
        ensures
            p == (Player { x: 0, speed: SPEED }),
            p.wf(),
    {
        Player { x: 0, speed: SPEED }
    }
}

/// Where one walking tick takes the player: a step left while still right
/// of the left border, else a step right while still left of the right
/// border, saturating at the arena's numeric limits. Holding both
/// directions walks left.
pub open spec fn spec_walk(p: Player, left: bool, right: bool, delta_ms: int) -> int {
    let step = p.speed * delta_ms;
    if left && p.x > CHEF_MIN_X {
        if p.x - step < -POS_LIMIT {
            -POS_LIMIT as int
        } else {
            p.x - step
        }
    } else if !left && right && p.x < CHEF_MAX_X {
        if p.x + step > POS_LIMIT {
            POS_LIMIT as int
        } else {
            p.x + step
        }
    } else {
        p.x as int
    }
}

/// One tick of walking under the held direction keys. Movement in a
/// direction stops once its border has been reached; speed never changes
/// here.
pub fn walk(player: &mut Player, left: bool, right: bool, delta_ms: u64)
    requires
        old(player).wf(),
        delta_ms <= MAX_DURATION_MS,
    ensures
        final(player).wf(),
        final(player).x == spec_walk(*old(player), left, right, delta_ms as int),
        final(player).speed == old(player).speed,
{
    let speed: i64 = player.speed as i64;
    let dt: i64 = delta_ms as i64;
    proof {
        assert(0 <= speed * dt <= 1_000_000 * 86_400_000) by (nonlinear_arith)
            requires
                900 <= speed <= 1_000_000,
                0 <= dt <= 86_400_000,
        {}
    }
    let step: i64 = speed * dt;
    if left {
        if player.x > CHEF_MIN_X {
            let x = player.x - step;
            player.x = if x < -POS_LIMIT {
                -POS_LIMIT
            } else {
                x
            };
        }
    } else if right && player.x < CHEF_MAX_X {
        let x = player.x + step;
        player.x = if x > POS_LIMIT {
            POS_LIMIT
        } else {
            x
        };
    }
}

/// A just-pressed attack becomes one attack event anchored at the player.
pub fn hit(player: &Player) -> (event: ChefHitEvent)
    ensures
        event == (ChefHitEvent { x: player.x, y: CHEF_Y }),
{
    ChefHitEvent { x: player.x, y: CHEF_Y }
}

/// On a level-up the player walks a bit faster, up to the speed cap.
pub fn update_level(player: &mut Player, level_fired: bool)
    requires
        old(player).wf(),
    ensures
        final(player).wf(),
        final(player).x == old(player).x,
        level_fired ==> final(player).speed == if old(player).speed + SPEED_UPDATE <= SPEED_CAP {
            old(player).speed + SPEED_UPDATE
        } else {
            SPEED_CAP as int
        },
        !level_fired ==> final(player).speed == old(player).speed,
{
    if level_fired {
        if player.speed + SPEED_UPDATE <= SPEED_CAP {
            player.speed = player.speed + SPEED_UPDATE;
        } else {
            player.speed = SPEED_CAP;
        }
    }
}

} // verus!
