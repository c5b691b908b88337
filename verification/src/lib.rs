//! A Pomodoro-style interval timer that, while a work interval runs, puts
//! forward one outstanding to-do item drawn at random from a set of calendars.
//!
//! The crate holds the scheduling and selection rules as verified code:
//! every executable function carries a contract over a mathematical model of
//! its arguments, and Verus proves the body against it. Four bodies are
//! believed, not proved; each does no more than call code that lies outside
//! the crate, and its contract says what is taken on trust:
//!
//! - `utc_timestamp` in `date`: chrono's calendar arithmetic,
//! - `to_lowercase` in `calendar`: `str::to_lowercase` of the standard
//!   library,
//! - `draw` in `selector`: the random choice of the rand crate,
//! - `pretty` in this file: the wording of the pretty-duration crate.
//!
//! Time is handed in by the caller. The phase scheduler works on a monotonic
//! clock, counted in nanoseconds from an origin of the caller's choosing; the
//! calendar side works on wall-clock instants, counted in whole seconds from
//! the Unix epoch.

pub mod timer;
pub mod calendar;
pub mod date;
pub mod selector;

use crate::calendar::{Calendar, CalendarSettings, CalendarView, Event, EventView, Refreshed};
use crate::selector::{may_be_drawn, select};
use crate::timer::{Timer, TimerDiscriminants, TimerSettings};
use pretty_duration::pretty_duration;
use std::time::Duration;
use vstd::prelude::*;
use vstd::string::*;

verus! {

/// All that is configured.
#[derive(Debug)]
pub struct Settings {
    pub timer: TimerSettings,
    pub calendar: CalendarSettings,
}

/// The state of the whole: the timer, the calendars, the task that is
/// shown, and the account of the time spent paused.
///
/// `paused_for` and `paused_at` are readings of the monotonic clock, in
/// nanoseconds.
#[derive(Debug)]
pub struct Application {
    pub settings: Settings,
    pub timer: Timer,
    pub events: Calendar,
    /// The task that is shown, if one is.
    pub chosen_event: Option<Event>,
    /// The time spent in the pauses that are over.
    pub paused_for: u64,
    /// When the pause that is on began; `None` while running.
    pub paused_at: Option<u64>,
}

/// How long the pause that is on has run at the clock reading `clock`;
/// nothing while no pause is on, and nothing while the clock reads less than
/// the instant at which the pause began.
pub open spec fn open_pause(paused_at: Option<u64>, clock: u64) -> int {
    match paused_at {
        Some(since) => if clock >= since {
            clock - since
        } else {
            0
        },
        None => 0,
    }
}

/// The clock reading with the time spent paused taken off: the pauses that
/// are over, and the one that is on as far as it has run. The result does
/// not go below zero.
pub open spec fn pause_adjusted(paused_for: u64, paused_at: Option<u64>, clock: u64) -> int {
    let on = open_pause(paused_at, clock);
    if clock - paused_for - on >= 0 {
        clock - paused_for - on
    } else {
        0
    }
}

/// The time spent paused once the pause that began at `since` ends at
/// `clock`, held at the largest `u64` where the sum is beyond it.
pub open spec fn paused_after(paused_for: u64, since: u64, clock: u64) -> int {
    let on = if clock >= since {
        clock - since
    } else {
        0
    };
    if paused_for + on <= u64::MAX {
        paused_for + on
    } else {
        u64::MAX as int
    }
}

/// The state of the calendars after a poll: with an answer, what the
/// answer makes of it; without one, the same.
pub open spec fn polled(state: CalendarView, finished: Option<Refreshed>) -> CalendarView {
    match finished {
        Some(answer) => state.after_answer(answer.generation, answer.events.deep_view()),
        None => state,
    }
}

/// Whether a tick is to draw a task: a work interval is running, the task
/// list stands and is not empty, and no task is shown.
pub open spec fn wants_task(timer: Timer, events: CalendarView, shown: Option<EventView>) -> bool {
    &&& timer is Working
    &&& events matches CalendarView::Ready(_, list)
    &&& list.len() > 0
    &&& shown is None
}

/// The wall-clock reading of `seconds` and `nanos` with the time spent in
/// the pauses that are over taken off, in nanoseconds since the Unix epoch.
pub open spec fn wall_adjusted(paused_for: u64, seconds: i64, nanos: u32) -> int {
    seconds * 1_000_000_000 + nanos - paused_for
}

/// The instant that the selector goes by, in nanoseconds since the Unix
/// epoch: the wall-clock reading of `seconds` and `nanos` with all the time
/// spent paused taken off, the pauses that are over and the one that is on
/// as far as it has run at the reading `clock` of the timer's clock.
pub open spec fn selector_instant(
    paused_for: u64,
    paused_at: Option<u64>,
    seconds: i64,
    nanos: u32,
    clock: u64,
) -> int {
    wall_adjusted(paused_for, seconds, nanos) - open_pause(paused_at, clock)
}

/// The first whole second that is not before the instant `nanos`.
pub open spec fn whole_seconds_up(nanos: int) -> int {
    if nanos % 1_000_000_000 == 0 {
        nanos / 1_000_000_000
    } else {
        nanos / 1_000_000_000 + 1
    }
}

/// `seconds` held within what an `i64` holds.
pub open spec fn held(seconds: int) -> int {
    if seconds < i64::MIN {
        i64::MIN as int
    } else if seconds > i64::MAX {
        i64::MAX as int
    } else {
        seconds
    }
}

/// The time left as it is shown: nothing once the deadline has passed.
pub open spec fn shown_left(left: int) -> int {
    if left > 0 {
        left
    } else {
        0
    }
}

/// The text that the pretty-duration crate gives, in its default format,
/// for a duration of `seconds` whole seconds and `nanos` nanoseconds.
pub uninterp spec fn pretty_text(seconds: u64, nanos: u32) -> Seq<char>;

/// Calls `Duration::new` of the standard library and
/// `pretty_duration::pretty_duration` without options.
///
/// Trusted, not proved: the result is the text that `pretty_text` names.
#[verifier::external_body]
fn pretty(seconds: u64, nanos: u32) -> (text: String)
    requires
        nanos < 1_000_000_000,
    ensures
        text@ == pretty_text(seconds, nanos),
{
    pretty_duration(&Duration::new(seconds, nanos), None)
}

/// A whole second lies before an instant exactly if it lies before that
/// instant rounded up to a whole second. So for tasks, whose instants are
/// whole seconds, nothing is lost by rounding the selector's instant.
pub proof fn law_rounding_keeps_order(exact: int, instant: i64)
    ensures
        instant * 1_000_000_000 < exact <==> instant < whole_seconds_up(exact),
        whole_seconds_up(exact) <= i64::MAX ==> (instant * 1_000_000_000 < exact <==> instant
            < held(whole_seconds_up(exact))),
{
}

/// While a pause is on, the selector's instant stands still: when the wall
/// clock and the timer's clock have both moved on by the same time, the
/// instant is what it was.
pub proof fn law_paused_selector_stands_still(
    paused_for: u64,
    since: u64,
    seconds: i64,
    nanos: u32,
    clock: u64,
    later_seconds: i64,
    later_nanos: u32,
    later_clock: u64,
)
    requires
        since <= clock <= later_clock,
        later_seconds * 1_000_000_000 + later_nanos - (seconds * 1_000_000_000 + nanos)
            == later_clock - clock,
    ensures
        selector_instant(paused_for, Some(since), later_seconds, later_nanos, later_clock)
            == selector_instant(paused_for, Some(since), seconds, nanos, clock),
{
}

/// The selector's instant is reduced by as much as the timer's: wherever
/// the timer's adjusted clock is not held at zero, the two lag behind their
/// clocks by the same time.
pub proof fn law_selector_and_timer_lag_alike(
    paused_for: u64,
    paused_at: Option<u64>,
    seconds: i64,
    nanos: u32,
    clock: u64,
)
    requires
        clock - paused_for - open_pause(paused_at, clock) >= 0,
    ensures
        seconds * 1_000_000_000 + nanos - selector_instant(
            paused_for,
            paused_at,
            seconds,
            nanos,
            clock,
        ) == clock - pause_adjusted(paused_for, paused_at, clock),
{
}

/// When a pause ends, the selector's instant goes on from where it stood:
/// nothing is lost or gained by moving the pause from the one that is on to
/// those that are over.
pub proof fn law_resumed_selector_goes_on(
    paused_for: u64,
    since: u64,
    end: u64,
    seconds: i64,
    nanos: u32,
)
    requires
        since <= end,
        paused_for + (end - since) <= u64::MAX,
    ensures
        selector_instant(paused_after(paused_for, since, end) as u64, None, seconds, nanos, end)
            == selector_instant(paused_for, Some(since), seconds, nanos, end),
{
}

/// While a pause is on, the adjusted clock stands still.
pub proof fn law_paused_clock_stands_still(paused_for: u64, since: u64, clock: u64, later: u64)
    requires
        since <= clock <= later,
    ensures
        pause_adjusted(paused_for, Some(since), clock) == pause_adjusted(
            paused_for,
            Some(since),
            later,
        ),
{
}

/// When a pause ends, the adjusted clock goes on from where it stood: at
/// `later` it has moved on by the time since the end of the pause, and by no
/// more.
pub proof fn law_resumed_clock_goes_on(paused_for: u64, since: u64, end: u64, later: u64)
    requires
        paused_for <= since <= end <= later,
    ensures
        paused_after(paused_for, since, end) == paused_for + (end - since),
        pause_adjusted(paused_after(paused_for, since, end) as u64, None, later) == pause_adjusted(
            paused_for,
            Some(since),
            end,
        ) + (later - end),
{
}

/// The line that heads the display: the name of the phase, and behind
/// ` : ` the time left as `left` writes it.
pub fn head_line(phase: TimerDiscriminants, left: &str) -> (line: String)
    ensures
        line@ == phase.label() + " : "@ + left@,
{
    String::from_str(phase.name()).concat(" : ").concat(left)
}

impl Application {
    /// The state at the start: the timer idle, the task list empty, nothing
    /// shown, never paused.
    pub fn init(settings: Settings) -> (app: Application)
        ensures
            app.settings == settings,
            app.timer == Timer::NotRunning,
            app.events@ == CalendarView::Ready(0, Seq::empty()),
            app.chosen_event is None,
            app.paused_for == 0,
            app.paused_at is None,
    {
        Application {
            timer: Timer::NotRunning,
            events: Calendar::new(),
            chosen_event: None,
            settings,
            paused_at: None,
            paused_for: 0,
        }
    }

    /// Whether a pause is on.
    pub fn paused(&self) -> (on: bool)
        ensures
            on == self.paused_at is Some,
    {
        self.paused_at.is_some()
    }

    /// The instant that the timer is to go by at the clock reading `clock`:
    /// the reading with the time spent paused taken off.
    pub fn now(&self, clock: u64) -> (now: u64)
        ensures
            now == pause_adjusted(self.paused_for, self.paused_at, clock),
    {
        let on = match self.paused_at {
            Some(since) => if clock >= since {
                clock - since
            } else {
                0
            },
            None => 0,
        };
        if clock >= self.paused_for && clock - self.paused_for >= on {
            clock - self.paused_for - on
        } else {
            0
        }
    }

    /// The instant that the selector is to go by when the wall clock reads
    /// `seconds` and `nanos` since the Unix epoch and the timer's clock
    /// reads `clock`: the wall-clock reading with all the time spent paused
    /// taken off, the pauses that are over and the one that is on, rounded
    /// up to a whole second and held within what an `i64` holds.
    pub fn wall_now(&self, seconds: i64, nanos: u32, clock: u64) -> (now: i64)
        ensures
            now == held(
                whole_seconds_up(
                    wall_adjusted(self.paused_for, seconds, nanos) - open_pause(
                        self.paused_at,
                        clock,
                    ),
                ),
            ),
            now == held(
                whole_seconds_up(
                    selector_instant(self.paused_for, self.paused_at, seconds, nanos, clock),
                ),
            ),
    {
        let on: u64 = match self.paused_at {
            Some(since) => if clock >= since {
                clock - since
            } else {
                0
            },
            None => 0,
        };
        let exact: i128 = seconds as i128 * 1_000_000_000 + nanos as i128 - self.paused_for as i128
            - on as i128;
        let whole = exact / 1_000_000_000;
        let up = if exact % 1_000_000_000 > 0 {
            whole + 1
        } else {
            whole
        };
        if up < i64::MIN as i128 {
            i64::MIN
        } else if up > i64::MAX as i128 {
            i64::MAX
        } else {
            up as i64
        }
    }

    /// The line that heads the display at the instant `now` of the timer's
    /// clock: the name of the phase, and behind ` : ` the time left in it,
    /// written out by the pretty-duration crate.
    pub fn heading(&self, now: u64) -> (line: String)
        ensures
            line@ == self.timer.tag().label() + " : "@ + ({
                let left = shown_left(self.timer.time_left(self.settings.timer, now));
                pretty_text((left / 1_000_000_000) as u64, (left % 1_000_000_000) as u32)
            }),
    {
        let left = self.timer.remaining(now, &self.settings.timer);
        let shown: u128 = if left > 0 {
            left as u128
        } else {
            0
        };
        let seconds = (shown / 1_000_000_000) as u64;
        let nanos = (shown % 1_000_000_000) as u32;
        head_line(TimerDiscriminants::from(&self.timer), pretty(seconds, nanos).as_str())
    }

    /// Begins a pause at the clock reading `clock`. A pause that is on goes
    /// on from where it began.
    pub fn pause(&mut self, clock: u64)
        ensures
            final(self).paused_at == (match old(self).paused_at {
                Some(since) => Some(since),
                None => Some(clock),
            }),
            final(self).paused_for == old(self).paused_for,
            final(self).timer == old(self).timer,
            final(self).events == old(self).events,
            final(self).chosen_event == old(self).chosen_event,
            final(self).settings == old(self).settings,
    {
        if self.paused_at.is_none() {
            self.paused_at = Some(clock);
        }
    }

    /// Ends the pause that is on, at the clock reading `clock`, and adds
    /// its length to the time spent paused. Without a pause nothing
    /// changes.
    pub fn resume(&mut self, clock: u64)
        ensures
            final(self).paused_at is None,
            final(self).paused_for == (match old(self).paused_at {
                Some(since) => paused_after(old(self).paused_for, since, clock),
                None => old(self).paused_for as int,
            }),
            final(self).timer == old(self).timer,
            final(self).events == old(self).events,
            final(self).chosen_event == old(self).chosen_event,
            final(self).settings == old(self).settings,
    {
        if let Some(since) = self.paused_at {
            let on = if clock >= since {
                clock - since
            } else {
                0
            };
            self.paused_for = if on <= u64::MAX - self.paused_for {
                self.paused_for + on
            } else {
                u64::MAX
            };
            self.paused_at = None;
        }
    }

    /// One step of the whole, at the instant `now` of the timer's clock and
    /// the instant `wall_now` of the calendar's, both with all the time
    /// spent paused taken off, as `Application::now` and
    /// `Application::wall_now` give them. `finished` is the answer of a
    /// refresh, where one has come in since the last step.
    ///
    /// The timer ticks; the answer, if there is one, is taken note of; and
    /// then a task is drawn if a work interval is running, the task list
    /// stands and is not empty, and no task is shown. Returns whether the
    /// phase changed, which is when the user is to be notified.
    pub fn tick(&mut self, now: u64, wall_now: i64, finished: Option<Refreshed>) -> (changed: bool)
        ensures
            final(self).timer == old(self).timer.after_tick(old(self).settings.timer, now, false),
            changed == old(self).timer.transitions(old(self).settings.timer, now, false),
            final(self).events@ == polled(old(self).events@, finished),
            wants_task(final(self).timer, final(self).events@, old(self).chosen_event.deep_view())
                ==> (final(self).events@ matches CalendarView::Ready(_, list) && may_be_drawn(
                list,
                wall_now,
                final(self).chosen_event.deep_view(),
            )),
            !wants_task(final(self).timer, final(self).events@, old(self).chosen_event.deep_view())
                ==> final(self).chosen_event == old(self).chosen_event,
            final(self).settings == old(self).settings,
            final(self).paused_for == old(self).paused_for,
            final(self).paused_at == old(self).paused_at,
    {
        let changed = self.timer.tick(&self.settings.timer, now, false);
        self.events.tick(finished);
        let wanted = match &self.events {
            Calendar::Ready(_, events) => self.timer.working() && events.len() > 0
                && self.chosen_event.is_none(),
            Calendar::Working(_) => false,
        };
        if wanted {
            self.choose_event(wall_now);
        }
        changed
    }

    /// Draws a task anew at the instant `wall_now` of the calendar's clock,
    /// with all the time spent paused taken off as `Application::wall_now`
    /// gives it, and shows the task in place of the one shown before. While
    /// a refresh is under way there is no list to draw from, and nothing
    /// changes.
    pub fn choose_event(&mut self, wall_now: i64)
        ensures
            old(self).events@ matches CalendarView::Ready(_, list) ==> may_be_drawn(
                list,
                wall_now,
                final(self).chosen_event.deep_view(),
            ),
            old(self).events@ is Working ==> final(self).chosen_event == old(self).chosen_event,
            final(self).events == old(self).events,
            final(self).timer == old(self).timer,
            final(self).settings == old(self).settings,
            final(self).paused_for == old(self).paused_for,
            final(self).paused_at == old(self).paused_at,
    {
        match &self.events {
            Calendar::Ready(_, events) => {
                self.chosen_event = select(events, wall_now);
            },
            Calendar::Working(_) => {},
        }
    }
}

} // verus!
