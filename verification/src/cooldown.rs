//! Manage cooldown timers.

use vstd::prelude::*;

verus! {

/// A timer gating repeatable actions to a minimum interval, counted in
/// milliseconds. Created available; `start` makes it unavailable for its
/// whole duration; `tick` counts the remaining time down and flips it back
/// to available exactly when the remaining time reaches zero.
#[derive(Clone, Debug)]
pub struct Cooldown {
    /// Remaining time until available, in milliseconds.
    remaining: u64,
    /// The duration of the cooldown, in milliseconds.
    duration: u64,
    /// Whether or not the cooldown is available, i.e. not in progress.
    available: bool,
}

impl Cooldown {
    /// The fixed duration, in milliseconds.
    pub closed spec fn spec_duration(self) -> u64 {
        self.duration
    }

    /// The remaining time until available, in milliseconds.
    pub closed spec fn spec_remaining(self) -> u64 {
        self.remaining
    }

    /// Whether the cooldown is available.
    pub closed spec fn spec_available(self) -> bool {
        self.available
    }

    /// The cooldown after advancing it by `delta` milliseconds: an available
    /// cooldown is left untouched; a running one has its remaining time
    /// reduced, clamped at zero, and becomes available exactly when the
    /// remaining time reaches zero.
    pub closed spec fn tick_spec(self, delta: u64) -> Cooldown {
        if self.available {
            self
        } else if delta >= self.remaining {
            Cooldown { remaining: 0, duration: self.duration, available: true }
        } else {
            Cooldown {
                remaining: (self.remaining - delta) as u64,
                duration: self.duration,
                available: false,
            }
        }
    }

    /// The cooldown after being started: unavailable, with its whole
    /// duration remaining.
    pub closed spec fn start_spec(self) -> Cooldown {
        Cooldown { remaining: self.duration, duration: self.duration, available: false }
    }

    /// Creates a cooldown with the given duration that is available at
    /// start.
    pub fn from_millis(millis: u64) -> (c: Cooldown)
        ensures
            c.spec_duration() == millis,
            c.spec_remaining() == 0,
            c.spec_available(),
    {
        Cooldown { duration: millis, available: true, remaining: 0 }
    }

    /// Starts the cooldown, making it unavailable for its whole duration.
    pub fn start(&mut self)
        ensures
            *final(self) == old(self).start_spec(),
            !final(self).spec_available(),
            final(self).spec_remaining() == old(self).spec_duration(),
            final(self).spec_duration() == old(self).spec_duration(),
    {
        self.available = false;
        self.remaining = self.duration;
    }

    /// Returns true if the cooldown is available.
    pub fn available(&self) -> (r: bool)
        ensures
            r == self.spec_available(),
    {
        self.available
    }

    /// Advances the cooldown by `delta` milliseconds and returns whether it
    /// is now available. An available cooldown stays as it is; a running one
    /// counts down, clamped at zero, and becomes available exactly when the
    /// remaining time reaches zero.
    pub fn tick(&mut self, delta: u64) -> (r: bool)
        ensures
            *final(self) == old(self).tick_spec(delta),
            final(self).spec_duration() == old(self).spec_duration(),
            final(self).spec_remaining() == (if old(self).spec_available() {
                old(self).spec_remaining() as int
            } else if delta >= old(self).spec_remaining() {
                0
            } else {
                old(self).spec_remaining() - delta
            }),
            final(self).spec_available() == (old(self).spec_available() || delta >= old(
                self,
            ).spec_remaining()),
            r == final(self).spec_available(),
    {
        if self.available {
            return true;
        }
        if delta >= self.remaining {
            self.remaining = 0;
            self.available = true;
        } else {
            self.remaining = self.remaining - delta;
        }
        self.available
    }
}

/// The cooldown after a whole sequence of ticks, applied first to last.
pub open spec fn run_ticks(c: Cooldown, deltas: Seq<u64>) -> Cooldown
    decreases deltas.len(),
{
    if deltas.len() == 0 {
        c
    } else {
        run_ticks(c.tick_spec(deltas[0]), deltas.subrange(1, deltas.len() as int))
    }
}

/// The sum of a sequence of tick deltas.
pub open spec fn sum_deltas(deltas: Seq<u64>) -> int
    decreases deltas.len(),
{
    if deltas.len() == 0 {
        0int
    } else {
        deltas[0] + sum_deltas(deltas.subrange(1, deltas.len() as int))
    }
}

/// Law: once available, a cooldown is unaffected by further ticks.
pub proof fn lemma_available_is_stable(c: Cooldown, deltas: Seq<u64>)
    requires
        c.spec_available(),
    ensures
        run_ticks(c, deltas) == c,
    decreases deltas.len(),
{
    if deltas.len() > 0 {
        lemma_available_is_stable(c, deltas.subrange(1, deltas.len() as int));
    }
}

/// Law: cooldown gating. After a cooldown is started, ticks whose deltas sum
/// to less than the remaining time leave it unavailable, with exactly the
/// sum subtracted; as soon as the cumulative deltas reach the remaining
/// time, it is available with zero remaining — clamped, never negative —
/// and it stays so.
pub proof fn lemma_cooldown_gating(c: Cooldown, deltas: Seq<u64>)
    requires
        !c.spec_available(),
    ensures
        sum_deltas(deltas) < c.spec_remaining() ==> {
            &&& !run_ticks(c, deltas).spec_available()
            &&& run_ticks(c, deltas).spec_remaining() == c.spec_remaining() - sum_deltas(deltas)
        },
        deltas.len() > 0 && sum_deltas(deltas) >= c.spec_remaining() ==> {
            &&& run_ticks(c, deltas).spec_available()
            &&& run_ticks(c, deltas).spec_remaining() == 0
        },
        run_ticks(c, deltas).spec_duration() == c.spec_duration(),
    decreases deltas.len(),
{
    if deltas.len() > 0 {
        let rest = deltas.subrange(1, deltas.len() as int);
        let c1 = c.tick_spec(deltas[0]);
        if c1.spec_available() {
            lemma_available_is_stable(c1, rest);
            assert(sum_deltas(rest) >= 0) by {
                lemma_sum_deltas_nonneg(rest);
            }
        } else {
            lemma_cooldown_gating(c1, rest);
        }
    }
}

/// The sum of tick deltas is never negative.
proof fn lemma_sum_deltas_nonneg(deltas: Seq<u64>)
    ensures
        sum_deltas(deltas) >= 0,
    decreases deltas.len(),
{
    if deltas.len() > 0 {
        lemma_sum_deltas_nonneg(deltas.subrange(1, deltas.len() as int));
    }
}

} // verus!
