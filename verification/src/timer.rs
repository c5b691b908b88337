//! The phase scheduler: work intervals, short breaks and long breaks.

use vstd::prelude::*;

verus! {

/// How long each phase lasts, and how many work intervals make up one round.
///
/// Durations are in nanoseconds of the monotonic clock that `now` is read
/// from.
#[derive(Clone, Copy, Debug, PartialEq, Eq, Structural)]
pub struct TimerSettings {
    /// Length of a work interval.
    pub work_time: u64,
    /// Length of a short break.
    pub short_rest_time: u64,
    /// Length of a long break.
    pub long_rest_time: u64,
    /// Number of work intervals after which the break is a long one.
    pub long_rest_interval: u8,
}

/// The phase the scheduler is in.
///
/// `Working` and `ShortBreak` carry the number of work intervals completed
/// since the last long break; every running phase carries the instant at
/// which it began.
#[derive(Clone, Copy, Debug, PartialEq, Eq, Structural)]
pub enum Timer {
    NotRunning,
    Working(u8, u64),
    ShortBreak(u8, u64),
    LongBreak(u64),
}

/// The tag of a phase, without its payload.
#[derive(Clone, Copy, Debug, PartialEq, Eq, Structural)]
pub enum TimerDiscriminants {
    NotRunning,
    Working,
    ShortBreak,
    LongBreak,
}

impl Timer {
    /// The tag of this phase.
    pub open spec fn tag(self) -> TimerDiscriminants {
        match self {
            Timer::NotRunning => TimerDiscriminants::NotRunning,
            Timer::Working(_, _) => TimerDiscriminants::Working,
            Timer::ShortBreak(_, _) => TimerDiscriminants::ShortBreak,
            Timer::LongBreak(_) => TimerDiscriminants::LongBreak,
        }
    }

    /// The instant at which the current phase began, if one is running.
    pub open spec fn started_at(self) -> Option<u64> {
        match self {
            Timer::NotRunning => None,
            Timer::Working(_, t) => Some(t),
            Timer::ShortBreak(_, t) => Some(t),
            Timer::LongBreak(t) => Some(t),
        }
    }

    /// The configured length of the current phase; zero when idle.
    pub open spec fn phase_length(self, settings: TimerSettings) -> int {
        match self {
            Timer::NotRunning => 0,
            Timer::Working(_, _) => settings.work_time as int,
            Timer::ShortBreak(_, _) => settings.short_rest_time as int,
            Timer::LongBreak(_) => settings.long_rest_time as int,
        }
    }

    /// Whether the current phase has run its full length at `now`.
    ///
    /// An idle timer never expires. The time run is the signed difference
    /// `now - started_at`, so a phase that began after `now` has not expired,
    /// whatever its length.
    pub open spec fn expired(self, settings: TimerSettings, now: u64) -> bool {
        match self.started_at() {
            None => false,
            Some(t) => now - t >= self.phase_length(settings),
        }
    }

    /// The phase that follows this one when it ends at `now`.
    pub open spec fn successor(self, settings: TimerSettings, now: u64) -> Timer {
        match self {
            Timer::NotRunning => Timer::NotRunning,
            Timer::Working(n, _) => if n + 1 >= settings.long_rest_interval {
                Timer::LongBreak(now)
            } else {
                Timer::ShortBreak((n + 1) as u8, now)
            },
            Timer::ShortBreak(n, _) => Timer::Working(n, now),
            Timer::LongBreak(_) => Timer::Working(0, now),
        }
    }

    /// Whether a tick at `now` moves the timer on to the next phase.
    pub open spec fn transitions(self, settings: TimerSettings, now: u64, skip: bool) -> bool {
        self != Timer::NotRunning && (skip || self.expired(settings, now))
    }

    /// The phase after a tick at `now`.
    pub open spec fn after_tick(self, settings: TimerSettings, now: u64, skip: bool) -> Timer {
        if self.transitions(settings, now, skip) {
            self.successor(settings, now)
        } else {
            self
        }
    }

    /// The counter of a `Working` or `ShortBreak` phase stays below the
    /// number of work intervals per round.
    pub open spec fn well_formed(self, settings: TimerSettings) -> bool {
        match self {
            Timer::Working(n, _) => n < settings.long_rest_interval,
            Timer::ShortBreak(n, _) => n < settings.long_rest_interval,
            _ => true,
        }
    }

    /// Time left until the current phase ends: `started_at + length - now`,
    /// negative once the deadline has passed, zero when idle.
    pub open spec fn time_left(self, settings: TimerSettings, now: u64) -> int {
        match self.started_at() {
            None => 0,
            Some(t) => t + self.phase_length(settings) - now,
        }
    }

    /// Begins a first work interval at `now`, whatever the phase was.
    pub fn start(&mut self, now: u64)
        ensures
            *final(self) == Timer::Working(0, now),
    {
        *self = Timer::Working(0, now)
    }

    /// Moves on to the next phase if the current one has run its length at
    /// `now`, or regardless of time if `skip` is set. Returns whether the
    /// phase changed. An idle timer stays idle.
    pub fn tick(&mut self, settings: &TimerSettings, now: u64, skip: bool) -> (changed: bool)
        ensures
            *final(self) == old(self).after_tick(*settings, now, skip),
            changed == old(self).transitions(*settings, now, skip),
            changed <==> *final(self) != *old(self),
            !skip && !old(self).expired(*settings, now) ==> *final(self) == *old(self) && !changed,
            settings.long_rest_interval > 0 && old(self).well_formed(*settings) ==> final(self).well_formed(
                *settings,
            ),
    {
        match *self {
            Timer::Working(since_last_lbreak, started_at) => {
                if skip || (now >= started_at && now - started_at >= settings.work_time) {
                    if since_last_lbreak >= u8::MAX || since_last_lbreak + 1
                        >= settings.long_rest_interval {
                        *self = Timer::LongBreak(now);
                    } else {
                        *self = Timer::ShortBreak(since_last_lbreak + 1, now);
                    }
                    true
                } else {
                    false
                }
            },
            Timer::ShortBreak(since_last_lbreak, started_at) => {
                if skip || (now >= started_at && now - started_at >= settings.short_rest_time) {
                    *self = Timer::Working(since_last_lbreak, now);
                    true
                } else {
                    false
                }
            },
            Timer::LongBreak(started_at) => {
                if skip || (now >= started_at && now - started_at >= settings.long_rest_time) {
                    *self = Timer::Working(0, now);
                    true
                } else {
                    false
                }
            },
            Timer::NotRunning => false,
        }
    }

    /// Whether a work interval is running.
    pub fn working(&self) -> (b: bool)
        ensures
            b == (self.tag() == TimerDiscriminants::Working),
    {
        matches!(self, Timer::Working(_, _))
    }

    /// Whether any phase is running.
    pub fn running(&self) -> (b: bool)
        ensures
            b == (*self != Timer::NotRunning),
    {
        !matches!(self, Timer::NotRunning)
    }

    /// Stops the timer, whatever the phase was.
    pub fn stop(&mut self)
        ensures
            *final(self) == Timer::NotRunning,
    {
        *self = Timer::NotRunning;
    }

    /// Time left until the current phase ends, in nanoseconds; negative once
    /// the deadline has passed, zero when idle.
    pub fn remaining(&self, now: u64, settings: &TimerSettings) -> (left: i128)
        ensures
            left == self.time_left(*settings, now),
    {
        match self {
            Timer::NotRunning => 0,
            Timer::Working(_, started) => *started as i128 + settings.work_time as i128 - now as i128,
            Timer::ShortBreak(_, started) => *started as i128 + settings.short_rest_time as i128
                - now as i128,
            Timer::LongBreak(started) => *started as i128 + settings.long_rest_time as i128
                - now as i128,
        }
    }
}

impl Default for Timer {
    /// An idle timer.
    fn default() -> (timer: Timer)
        ensures
            timer == Timer::NotRunning,
    {
        Timer::NotRunning
    }
}

impl From<Timer> for TimerDiscriminants {
    fn from(timer: Timer) -> (tag: TimerDiscriminants) {
        match timer {
            Timer::NotRunning => TimerDiscriminants::NotRunning,
            Timer::Working(_, _) => TimerDiscriminants::Working,
            Timer::ShortBreak(_, _) => TimerDiscriminants::ShortBreak,
            Timer::LongBreak(_) => TimerDiscriminants::LongBreak,
        }
    }
}

impl vstd::std_specs::convert::FromSpecImpl<Timer> for TimerDiscriminants {
    open spec fn obeys_from_spec() -> bool {
        true
    }

    open spec fn from_spec(timer: Timer) -> TimerDiscriminants {
        timer.tag()
    }
}

impl<'a> From<&'a Timer> for TimerDiscriminants {
    fn from(timer: &'a Timer) -> (tag: TimerDiscriminants) {
        match timer {
            Timer::NotRunning => TimerDiscriminants::NotRunning,
            Timer::Working(_, _) => TimerDiscriminants::Working,
            Timer::ShortBreak(_, _) => TimerDiscriminants::ShortBreak,
            Timer::LongBreak(_) => TimerDiscriminants::LongBreak,
        }
    }
}

impl<'a> vstd::std_specs::convert::FromSpecImpl<&'a Timer> for TimerDiscriminants {
    open spec fn obeys_from_spec() -> bool {
        true
    }

    open spec fn from_spec(timer: &'a Timer) -> TimerDiscriminants {
        timer.tag()
    }
}

impl TimerDiscriminants {
    /// The tag's name as text.
    pub open spec fn label(self) -> Seq<char> {
        match self {
            TimerDiscriminants::NotRunning => "NotRunning"@,
            TimerDiscriminants::Working => "Working"@,
            TimerDiscriminants::ShortBreak => "ShortBreak"@,
            TimerDiscriminants::LongBreak => "LongBreak"@,
        }
    }

    /// The tag's name, as it is shown to the user.
    pub fn name(&self) -> (text: &'static str)
        ensures
            text@ == self.label(),
    {
        match self {
            TimerDiscriminants::NotRunning => "NotRunning",
            TimerDiscriminants::Working => "Working",
            TimerDiscriminants::ShortBreak => "ShortBreak",
            TimerDiscriminants::LongBreak => "LongBreak",
        }
    }
}

impl Timer {
    /// The phase reached from this one by a forced tick at each instant of
    /// `nows`, in order.
    pub open spec fn after_skips(self, settings: TimerSettings, nows: Seq<u64>) -> Timer
        decreases nows.len(),
    {
        if nows.len() == 0 {
            self
        } else {
            self.after_skips(settings, nows.drop_last()).after_tick(settings, nows.last(), true)
        }
    }

    /// The phase that stands `steps` forced ticks after the start of a
    /// round, the last of them at `now`: work and short breaks in turn, with
    /// the counter going up at each break, until the break that would bring
    /// the counter to `long_rest_interval` is a long one, after which a new
    /// round begins.
    pub open spec fn round_phase(settings: TimerSettings, steps: int, now: u64) -> Timer {
        let k = settings.long_rest_interval as int;
        if steps == 2 * k {
            Timer::Working(0, now)
        } else if steps == 2 * k - 1 {
            Timer::LongBreak(now)
        } else if steps % 2 == 0 {
            Timer::Working((steps / 2) as u8, now)
        } else {
            Timer::ShortBreak(((steps + 1) / 2) as u8, now)
        }
    }

    /// A tick with `skip` unset, made before the current phase has run its
    /// length, leaves the timer as it was.
    pub proof fn law_tick_before_deadline(self, settings: TimerSettings, now: u64)
        requires
            !self.expired(settings, now),
        ensures
            self.after_tick(settings, now, false) == self,
            !self.transitions(settings, now, false),
    {
    }

    /// With at least one work interval per round, a tick keeps the counter
    /// below `long_rest_interval`, and so does a start.
    pub proof fn law_counter_in_range(self, settings: TimerSettings, now: u64, skip: bool)
        requires
            settings.long_rest_interval > 0,
            self.well_formed(settings),
        ensures
            self.after_tick(settings, now, skip).well_formed(settings),
            Timer::Working(0, now).well_formed(settings),
    {
    }

    /// Forced ticks from the start of a work interval with counter zero walk
    /// through one round of `2 * long_rest_interval` phases and arrive where
    /// they began: after each tick the timer is in the phase that
    /// `round_phase` names.
    pub proof fn law_forced_round(settings: TimerSettings, start: u64, nows: Seq<u64>)
        requires
            settings.long_rest_interval > 0,
            0 < nows.len() <= 2 * settings.long_rest_interval,
        ensures
            Timer::Working(0, start).after_skips(settings, nows) == Timer::round_phase(
                settings,
                nows.len() as int,
                nows.last(),
            ),
        decreases nows.len(),
    {
        let first = Timer::Working(0, start);
        let before = nows.drop_last();
        if before.len() == 0 {
            assert(first.after_skips(settings, before) == first);
        } else {
            Timer::law_forced_round(settings, start, before);
        }
    }
}

} // verus!
