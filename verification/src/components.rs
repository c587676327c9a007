//! A countdown clock advanced by wall-clock deltas, the timing primitive
//! behind spawning, boost pacing and level progression.

use vstd::prelude::*;

verus! {

/// No clock runs longer than a day, and no tick advances further.
pub const MAX_DURATION_MS: u64 = 86_400_000;

/// A timer advanced by elapsed milliseconds. A repeating clock fires each
/// time its duration is crossed and then starts over (keeping the excess);
/// a one-shot clock fires once and then stays finished.
#[derive(Clone, Copy, Debug, PartialEq, Eq, Structural)]
pub struct Clock {
    pub duration_ms: u64,
    pub elapsed_ms: u64,
    pub repeating: bool,
    pub fired: bool,
}

/// What one tick does to a clock: the accumulated time either crosses the
/// duration (the clock fires) or not; a repeating clock keeps the excess,
/// a one-shot clock pins itself at its duration and fires only on the
/// crossing tick.
pub open spec fn spec_tick(c: Clock, delta_ms: int) -> Clock {
    let total = c.elapsed_ms + delta_ms;
    if c.repeating {
        Clock {
            fired: total >= c.duration_ms,
            elapsed_ms: (total % (c.duration_ms as int)) as u64,
            ..c
        }
    } else {
        Clock {
            fired: c.elapsed_ms < c.duration_ms && total >= c.duration_ms,
            elapsed_ms: (if total >= c.duration_ms {
                c.duration_ms as int
            } else {
                total
            }) as u64,
            ..c
        }
    }
}

impl Clock {
    pub open spec fn wf(self) -> bool {
        &&& 1 <= self.duration_ms <= MAX_DURATION_MS
        &&& if self.repeating {
            self.elapsed_ms < self.duration_ms
        } else {
            self.elapsed_ms <= self.duration_ms
        }
    }

    /// A repeating clock with the given period in milliseconds.
    pub fn millis(millis: u64) -> (c: Clock)
        requires
            1 <= millis <= MAX_DURATION_MS,
        ensures
            c == (Clock { duration_ms: millis, elapsed_ms: 0, repeating: true, fired: false }),
            c.wf(),
    {
        Clock { duration_ms: millis, elapsed_ms: 0, repeating: true, fired: false }
    }

    /// A one-shot clock with the given duration in milliseconds.
    pub fn millis_once(millis: u64) -> (c: Clock)
        requires
            1 <= millis <= MAX_DURATION_MS,
        ensures
            c == (Clock { duration_ms: millis, elapsed_ms: 0, repeating: false, fired: false }),
            c.wf(),
    {
        Clock { duration_ms: millis, elapsed_ms: 0, repeating: false, fired: false }
    }

    /// A repeating clock with the given period in whole seconds.
    pub fn seconds(seconds: u64) -> (c: Clock)
        requires
            1 <= seconds <= 86_400,
        ensures
            c == (Clock {
                duration_ms: (seconds * 1000) as u64,
                elapsed_ms: 0,
                repeating: true,
                fired: false,
            }),
            c.wf(),
    {
        Clock::millis(seconds * 1000)
    }

    /// A one-shot clock with the given duration in whole seconds.
    pub fn seconds_once(seconds: u64) -> (c: Clock)
        requires
            1 <= seconds <= 86_400,
        ensures
            c == (Clock {
                duration_ms: (seconds * 1000) as u64,
                elapsed_ms: 0,
                repeating: false,
                fired: false,
            }),
            c.wf(),
    {
        Clock::millis_once(seconds * 1000)
    }

    /// Advances the clock by an elapsed wall-clock delta. The clock fires
    /// when the accumulated time crosses its duration; a repeating clock
    /// keeps the excess as the start of its next period, a one-shot clock
    /// pins itself at its duration and never fires again.
    pub fn tick(&mut self, delta_ms: u64)
        requires
            old(self).wf(),
            delta_ms <= MAX_DURATION_MS,
        ensures
            final(self).wf(),
            *final(self) == spec_tick(*old(self), delta_ms as int),
    {
        let total = self.elapsed_ms + delta_ms;
        if self.repeating {
            self.fired = total >= self.duration_ms;
            self.elapsed_ms = total % self.duration_ms;
        } else {
            self.fired = self.elapsed_ms < self.duration_ms && total >= self.duration_ms;
            self.elapsed_ms = if total >= self.duration_ms {
                self.duration_ms
            } else {
                total
            };
        }
    }

    /// Whether the clock is finished: for a repeating clock, whether it
    /// fired on the latest tick; for a one-shot clock, whether it has ever
    /// run out.
    pub fn finished(&self) -> (r: bool)
        ensures
            r == self.spec_finished(),
    {
        if self.repeating {
            self.fired
        } else {
            self.elapsed_ms >= self.duration_ms
        }
    }

    pub open spec fn spec_finished(self) -> bool {
        if self.repeating {
            self.fired
        } else {
            self.elapsed_ms >= self.duration_ms
        }
    }

    /// Whether the clock fired on the latest tick.
    pub fn just_finished(&self) -> (r: bool)
        ensures
            r == self.fired,
    {
        self.fired
    }
}

} // verus!
