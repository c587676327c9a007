//! Difficulty progression: a repeating timer whose every firing raises the
//! level counter, mirrors it into the session, and signals the level-up
//! that makes the spawner accelerate.

use vstd::prelude::*;

use crate::components::spec_tick;
use crate::components::Clock;
use crate::components::MAX_DURATION_MS;
use crate::events::LevelUpdate;
use crate::events::Signal;
use crate::session::Session;

verus! {

/// Seconds between level-ups.
pub const LEVEL_UPDATE_TIME: u64 = 6;

/// The level progression state: the cadence clock and the level counter.
#[derive(Clone, Copy, Debug, PartialEq, Eq, Structural)]
pub struct Level {
    pub clock: Clock,
    pub number: u32,
}

impl Level {
    pub open spec fn wf(self) -> bool {
        &&& self.clock.wf()
        &&& self.clock.repeating
        &&& self.number >= 1
    }

    /// Level progression as a session starts: level one, a fresh cadence.
    pub fn new() -> (l: Level)
        ensures
            l.wf(),
            l.number == 1,
            l.clock == (Clock {
                duration_ms: (LEVEL_UPDATE_TIME * 1000) as u64,
                elapsed_ms: 0,
                repeating: true,
                fired: false,
            }),
    {
        Level { clock: Clock::seconds(LEVEL_UPDATE_TIME), number: 1 }
    }
}

/// One simulation tick of the progression. When the cadence clock fires,
/// the level counter rises by one, the session's level display follows,
/// and a level-up signal goes out; otherwise everything stays as it was.
pub fn update_level(level: &mut Level, session: &mut Session, delta_ms: u64, signals: &mut Vec<
    Signal,
>)
    requires
        old(level).wf(),
        old(level).number < u32::MAX,
        old(session).wf(),
        delta_ms <= MAX_DURATION_MS,
    ensures
        final(level).wf(),
        final(session).wf(),
        final(level).clock == spec_tick(old(level).clock, delta_ms as int),
        spec_tick(old(level).clock, delta_ms as int).fired ==> {
            &&& final(level).number == old(level).number + 1
            &&& final(session).level == old(level).number + 1
            &&& final(signals)@ == old(signals)@ + seq![
                Signal::Level(LevelUpdate { number: (old(level).number + 1) as u32 }),
            ]
        },
        !spec_tick(old(level).clock, delta_ms as int).fired ==> {
            &&& final(level).number == old(level).number
            &&& final(session).level == old(session).level
            &&& final(signals)@ == old(signals)@
        },
        final(session).lives_left == old(session).lives_left,
        final(session).score == old(session).score,
        final(session).boosts == old(session).boosts,
{
    level.clock.tick(delta_ms);
    if level.clock.finished() {
        level.number = level.number + 1;
        signals.push(Signal::Level(LevelUpdate { number: level.number }));
        session.level = level.number;
    }
}

} // verus!
