//! The two countdowns of the scene, kept as plain nanosecond counts and advanced
//! by the engine's own timer.

use bevy::time::{Timer, TimerMode};
use std::time::Duration;
use vstd::prelude::*;

verus! {

/// What a countdown does when it completes: stop for good, or start over with
/// what is left.
#[derive(Clone, Copy, Debug, PartialEq, Eq, Structural)]
pub enum Mode {
    Once,
    Repeating,
}

/// The time on a countdown of the given mode and duration that had `elapsed`
/// nanoseconds on it, after `delta` more: the sum while it is short of the
/// duration; from there on the duration itself for a one-shot countdown, and
/// the remainder of the sum by the duration for a repeating one.
pub open spec fn ticked(mode: Mode, duration: u64, elapsed: u64, delta: u64) -> int {
    if elapsed + delta < duration {
        elapsed + delta
    } else {
        match mode {
            Mode::Once => duration as int,
            Mode::Repeating => (elapsed + delta) % (duration as int),
        }
    }
}

/// Whether the tick that adds `delta` nanoseconds counts as a completion: for
/// a one-shot countdown, if it had not completed before and has now; for a
/// repeating one, if the number of durations that the sum holds, cut to 32
/// bits, is not zero.
pub open spec fn completes(mode: Mode, duration: u64, elapsed: u64, delta: u64) -> bool {
    match mode {
        Mode::Once => elapsed < duration && elapsed + delta >= duration,
        Mode::Repeating => elapsed + delta >= duration && ((elapsed + delta) / (
        duration as int)) % 0x1_0000_0000 != 0,
    }
}

/// Makes a `bevy::time::Timer` of the given mode and duration with
/// `Timer::new`, brings it to `elapsed` nanoseconds with one `Timer::tick`,
/// advances it by `delta` nanoseconds with a second, and returns what
/// `Timer::elapsed`, `Timer::finished` and `Timer::just_finished` then give.
/// Times pass through `Duration::from_nanos` and `Duration::as_nanos`.
///
/// Trusted, of `Timer::tick` on a timer that is not paused: on a one-shot
/// timer that has finished it changes nothing and reports no completion;
/// otherwise it adds the time given, and the timer has finished exactly if
/// the sum has reached the duration. A one-shot timer that finishes holds its
/// duration and reports one completion; a repeating one holds the remainder
/// of the sum by the duration and reports as many completions as the sum
/// holds durations, as a 32-bit number.
#[verifier::external_body]
fn timer_tick(mode: Mode, duration: u64, elapsed: u64, delta: u64) -> (r: (u64, bool, bool))
    requires
        mode == Mode::Repeating ==> elapsed < duration,
    ensures
        r.0 == ticked(mode, duration, elapsed, delta),
        r.1 == (elapsed + delta >= duration),
        r.2 == completes(mode, duration, elapsed, delta),
{
    let mode = match mode {
        Mode::Once => TimerMode::Once,
        Mode::Repeating => TimerMode::Repeating,
    };
    let mut timer = Timer::new(Duration::from_nanos(duration), mode);
    timer.tick(Duration::from_nanos(elapsed));
    timer.tick(Duration::from_nanos(delta));
    (timer.elapsed().as_nanos() as u64, timer.finished(), timer.just_finished())
}

/// The time that a sequence of frames spans.
pub open spec fn total(deltas: Seq<u64>) -> nat
    decreases deltas.len(),
{
    if deltas.len() == 0 {
        0
    } else {
        total(deltas.drop_last()) + deltas.last() as nat
    }
}

/// A repeating countdown: a fixed positive period and the time accumulated
/// towards the next firing, both in nanoseconds.
#[derive(Clone, Copy, Debug)]
pub struct SpawnTimer {
    period: u64,
    elapsed: u64,
}

impl SpawnTimer {
    /// The period is positive and the accumulated time stays below it.
    #[verifier::type_invariant]
    pub closed spec fn wf(self) -> bool {
        0 < self.period && self.elapsed < self.period
    }

    /// The period between two firings.
    pub closed spec fn period(self) -> nat {
        self.period as nat
    }

    /// The time accumulated since the last firing.
    pub closed spec fn elapsed(self) -> nat {
        self.elapsed as nat
    }

    /// The countdown of the given period with no time on it.
    pub closed spec fn fresh(period: u64) -> SpawnTimer {
        SpawnTimer { period, elapsed: 0 }
    }

    /// Whether a frame of `delta` nanoseconds reaches the period.
    pub open spec fn fires(self, delta: u64) -> bool {
        self.elapsed() + delta >= self.period()
    }

    /// The time on the countdown after a frame of `delta` nanoseconds: what is
    /// left of the accumulated time once every full period is taken out.
    pub open spec fn elapsed_after(self, delta: u64) -> nat {
        ((self.elapsed() + delta) % (self.period() as int)) as nat
    }

    /// The countdown after a frame of `delta` nanoseconds.
    pub closed spec fn after(self, delta: u64) -> SpawnTimer {
        SpawnTimer { period: self.period, elapsed: self.elapsed_after(delta) as u64 }
    }

    /// The countdown after a sequence of frames.
    pub open spec fn after_all(self, deltas: Seq<u64>) -> SpawnTimer
        decreases deltas.len(),
    {
        if deltas.len() == 0 {
            self
        } else {
            self.after_all(deltas.drop_last()).after(deltas.last())
        }
    }

    /// How many frames of a sequence the countdown fires in.
    pub open spec fn fire_count(self, deltas: Seq<u64>) -> nat
        decreases deltas.len(),
    {
        if deltas.len() == 0 {
            0
        } else {
            let before = self.fire_count(deltas.drop_last());
            if self.after_all(deltas.drop_last()).fires(deltas.last()) {
                before + 1
            } else {
                before
            }
        }
    }

    /// A frame keeps the period and a well-formed countdown, and leaves on it
    /// the time that `elapsed_after` gives.
    pub proof fn lemma_after(self, delta: u64)
        requires
            self.wf(),
        ensures
            self.after(delta).wf(),
            self.after(delta).period() == self.period(),
            self.after(delta).elapsed() == self.elapsed_after(delta),
            self.elapsed_after(delta) < self.period(),
            !self.fires(delta) ==> self.elapsed_after(delta) == self.elapsed() + delta,
    {
        let sum = self.elapsed as int + delta as int;
        let p = self.period as int;
        vstd::arithmetic::div_mod::lemma_mod_pos_bound(sum, p);
        if sum < p {
            vstd::arithmetic::div_mod::lemma_small_mod(sum as nat, p as nat);
        }
    }

    /// A well-formed countdown has a positive period and less than it on it.
    pub proof fn lemma_bounds(self)
        requires
            self.wf(),
        ensures
            0 < self.period(),
            self.elapsed() < self.period(),
    {
    }

    /// A fresh countdown of a positive period is well formed and has no time
    /// on it.
    pub proof fn lemma_fresh(period: u64)
        requires
            0 < period,
        ensures
            Self::fresh(period).wf(),
            Self::fresh(period).period() == period,
            Self::fresh(period).elapsed() == 0,
    {
    }

    /// A fresh countdown, or `None` for a period of zero.
    pub fn new(period: u64) -> (r: Option<Self>)
        ensures
            r == if period > 0 {
                Some(Self::fresh(period))
            } else {
                None
            },
            r matches Some(t) ==> t.wf() && t.period() == period && t.elapsed() == 0,
    {
        if period == 0 {
            None
        } else {
            Some(SpawnTimer { period, elapsed: 0 })
        }
    }

    /// A countdown with `elapsed` nanoseconds on it, or `None` where the period
    /// is zero or the time is not below it.
    pub fn from_parts(period: u64, elapsed: u64) -> (r: Option<Self>)
        ensures
            r.is_some() == (elapsed < period),
            r matches Some(t) ==> t.wf() && t.period() == period && t.elapsed() == elapsed,
    {
        if elapsed < period {
            Some(SpawnTimer { period, elapsed })
        } else {
            None
        }
    }

    /// Accumulates one frame's time and says whether the countdown fired. It
    /// fires at most once per frame, however many periods the frame spans.
    pub fn tick(&mut self, delta: u64) -> (fired: bool)
        ensures
            final(self).wf(),
            *final(self) == old(self).after(delta),
            final(self).period() == old(self).period(),
            final(self).elapsed() == old(self).elapsed_after(delta),
            fired == old(self).fires(delta),
    {
        proof {
            use_type_invariant(&*self);
            self.lemma_after(delta);
        }
        let (elapsed, fired, _) = timer_tick(Mode::Repeating, self.period, self.elapsed, delta);
        self.elapsed = elapsed;
        fired
    }

    /// The period in nanoseconds.
    pub fn period_nanos(&self) -> (r: u64)
        ensures
            r == self.period(),
    {
        self.period
    }

    /// The accumulated time in nanoseconds.
    pub fn elapsed_nanos(&self) -> (r: u64)
        ensures
            r == self.elapsed(),
    {
        self.elapsed
    }
}

/// A one-shot countdown: a fixed positive duration and the time run so far,
/// which stops at the duration. It has finished once the two are equal.
#[derive(Clone, Copy, Debug)]
pub struct Lifetime {
    duration: u64,
    elapsed: u64,
}

impl Lifetime {
    /// The duration is positive and the time run does not pass it.
    #[verifier::type_invariant]
    pub closed spec fn wf(self) -> bool {
        0 < self.duration && self.elapsed <= self.duration
    }

    /// The time after which the countdown completes.
    pub closed spec fn duration(self) -> nat {
        self.duration as nat
    }

    /// The time run so far.
    pub closed spec fn elapsed(self) -> nat {
        self.elapsed as nat
    }

    /// The countdown of the given duration that has not run yet.
    pub closed spec fn fresh(duration: u64) -> Lifetime {
        Lifetime { duration, elapsed: 0 }
    }

    /// Whether the countdown has completed.
    pub open spec fn is_finished(self) -> bool {
        self.elapsed() >= self.duration()
    }

    /// Whether a frame of `delta` nanoseconds completes the countdown: it had
    /// not completed before and has afterwards.
    pub open spec fn expires(self, delta: u64) -> bool {
        self.elapsed() < self.duration() && self.elapsed() + delta >= self.duration()
    }

    /// The time run after a frame of `delta` nanoseconds.
    pub open spec fn elapsed_after(self, delta: u64) -> nat {
        if self.elapsed() + delta >= self.duration() {
            self.duration()
        } else {
            self.elapsed() + delta as nat
        }
    }

    /// The countdown after a frame of `delta` nanoseconds.
    pub closed spec fn after(self, delta: u64) -> Lifetime {
        Lifetime { duration: self.duration, elapsed: self.elapsed_after(delta) as u64 }
    }

    /// The countdown after a sequence of frames.
    pub open spec fn after_all(self, deltas: Seq<u64>) -> Lifetime
        decreases deltas.len(),
    {
        if deltas.len() == 0 {
            self
        } else {
            self.after_all(deltas.drop_last()).after(deltas.last())
        }
    }

    /// How many frames of a sequence report the completion.
    pub open spec fn expiry_count(self, deltas: Seq<u64>) -> nat
        decreases deltas.len(),
    {
        if deltas.len() == 0 {
            0
        } else {
            let before = self.expiry_count(deltas.drop_last());
            if self.after_all(deltas.drop_last()).expires(deltas.last()) {
                before + 1
            } else {
                before
            }
        }
    }

    /// A frame keeps the duration and a well-formed countdown, and leaves on it
    /// the time that `elapsed_after` gives.
    pub proof fn lemma_after(self, delta: u64)
        requires
            self.wf(),
        ensures
            self.after(delta).wf(),
            self.after(delta).duration() == self.duration(),
            self.after(delta).elapsed() == self.elapsed_after(delta),
    {
    }

    /// A well-formed countdown has a positive duration and has not run past it.
    pub proof fn lemma_bounds(self)
        requires
            self.wf(),
        ensures
            0 < self.duration(),
            self.elapsed() <= self.duration(),
    {
    }

    /// A fresh countdown of a positive duration is well formed and has not
    /// run.
    pub proof fn lemma_fresh(duration: u64)
        requires
            0 < duration,
        ensures
            Self::fresh(duration).wf(),
            Self::fresh(duration).duration() == duration,
            Self::fresh(duration).elapsed() == 0,
    {
    }

    /// A fresh countdown, or `None` for a duration of zero.
    pub fn new(duration: u64) -> (r: Option<Self>)
        ensures
            r == if duration > 0 {
                Some(Self::fresh(duration))
            } else {
                None
            },
            r matches Some(t) ==> t.wf() && t.duration() == duration && t.elapsed() == 0,
    {
        if duration == 0 {
            None
        } else {
            Some(Lifetime { duration, elapsed: 0 })
        }
    }

    /// A countdown that has run for `elapsed` nanoseconds, or `None` where the
    /// duration is zero or the time passes it.
    pub fn from_parts(duration: u64, elapsed: u64) -> (r: Option<Self>)
        ensures
            r.is_some() == (0 < duration && elapsed <= duration),
            r matches Some(t) ==> t.wf() && t.duration() == duration && t.elapsed() == elapsed,
    {
        if 0 < duration && elapsed <= duration {
            Some(Lifetime { duration, elapsed })
        } else {
            None
        }
    }

    /// Advances the countdown by one frame's time and says whether it completed
    /// in this frame. A countdown that had completed before stays as it is and
    /// reports nothing.
    pub fn tick(&mut self, delta: u64) -> (just_finished: bool)
        ensures
            final(self).wf(),
            *final(self) == old(self).after(delta),
            final(self).duration() == old(self).duration(),
            final(self).elapsed() == old(self).elapsed_after(delta),
            just_finished == old(self).expires(delta),
    {
        proof {
            use_type_invariant(&*self);
        }
        let (elapsed, _, just_finished) = timer_tick(Mode::Once, self.duration, self.elapsed, delta);
        self.elapsed = elapsed;
        just_finished
    }

    /// Whether the countdown has completed.
    pub fn finished(&self) -> (r: bool)
        ensures
            r == self.is_finished(),
    {
        self.elapsed >= self.duration
    }

    /// The duration in nanoseconds.
    pub fn duration_nanos(&self) -> (r: u64)
        ensures
            r == self.duration(),
    {
        self.duration
    }

    /// The time run so far in nanoseconds.
    pub fn elapsed_nanos(&self) -> (r: u64)
        ensures
            r == self.elapsed(),
    {
        self.elapsed
    }

    /// The time still to run in nanoseconds.
    pub fn remaining_nanos(&self) -> (r: u64)
        ensures
            r == self.duration() - self.elapsed(),
    {
        proof {
            use_type_invariant(self);
        }
        self.duration - self.elapsed
    }
}

} // verus!
