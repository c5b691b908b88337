use std::time::Duration;
use task_timer::calendar::{Calendar, CalendarSettings, Event, Refreshed};
use task_timer::date::{Moment, Offset};
use task_timer::timer::{Timer, TimerDiscriminants, TimerSettings};
use task_timer::{head_line, Application, Settings};

const SECOND: u64 = 1_000_000_000;

fn settings() -> Settings {
    Settings {
        timer: TimerSettings {
            work_time: 1500 * SECOND,
            short_rest_time: 600 * SECOND,
            long_rest_time: 1800 * SECOND,
            long_rest_interval: 4,
        },
        calendar: CalendarSettings {
            urls: vec!["https://dav.example/".to_string()],
            username: None,
            password: None,
            token: None,
        },
    }
}

fn task(name: &str, priority: i8, starts: Option<i64>) -> Event {
    Event {
        uid: name.to_string(),
        date_stamp: Moment { timestamp: 0, offset: Offset::Local },
        summary: name.to_string(),
        starts: starts.map(|timestamp| Moment { timestamp, offset: Offset::Local }),
        due: None,
        priority,
    }
}

fn app_with(timer: Timer, events: Calendar) -> Application {
    let mut app = Application::init(settings());
    app.timer = timer;
    app.events = events;
    app
}

fn shown(app: &Application) -> Option<&str> {
    app.chosen_event.as_ref().map(|e| e.summary.as_str())
}

#[test]
fn init_starts_idle_and_empty() {
    let app = Application::init(settings());
    assert_eq!(app.timer, Timer::NotRunning);
    assert!(matches!(&app.events, Calendar::Ready(0, events) if events.is_empty()));
    assert!(app.chosen_event.is_none());
    assert_eq!(app.paused_for, 0);
    assert_eq!(app.paused_at, None);
    assert!(!app.paused());
    assert_eq!(app.settings.timer.work_time, 1500 * SECOND);
    assert_eq!(app.settings.calendar.urls, ["https://dav.example/"]);
}

#[test]
fn now_is_the_clock_while_never_paused() {
    let app = Application::init(settings());
    assert_eq!(app.now(0), 0);
    assert_eq!(app.now(77), 77);
    assert_eq!(app.now(u64::MAX), u64::MAX);
}

#[test]
fn now_stands_still_during_a_pause() {
    let mut app = Application::init(settings());
    app.pause(100);
    assert!(app.paused());
    assert_eq!(app.paused_at, Some(100));
    assert_eq!(app.now(100), 100);
    assert_eq!(app.now(150), 100);
    assert_eq!(app.now(1_000_000), 100);
}

#[test]
fn now_goes_on_after_a_pause_where_it_stood() {
    let mut app = Application::init(settings());
    app.pause(100);
    app.resume(160);
    assert!(!app.paused());
    assert_eq!(app.paused_for, 60);
    assert_eq!(app.now(160), 100);
    assert_eq!(app.now(200), 140);
    app.pause(200);
    assert_eq!(app.now(230), 140);
    app.resume(240);
    assert_eq!(app.paused_for, 100);
    assert_eq!(app.now(240), 140);
    assert_eq!(app.now(1000), 900);
}

#[test]
fn a_second_pause_does_not_move_the_first() {
    let mut app = Application::init(settings());
    app.pause(100);
    app.pause(150);
    assert_eq!(app.paused_at, Some(100));
    app.resume(180);
    assert_eq!(app.paused_for, 80);
}

#[test]
fn resume_without_a_pause_changes_nothing() {
    let mut app = Application::init(settings());
    app.paused_for = 5;
    app.resume(1000);
    assert_eq!(app.paused_for, 5);
    assert_eq!(app.paused_at, None);
}

#[test]
fn pause_accounting_does_not_go_below_zero_or_beyond_the_top() {
    let mut app = Application::init(settings());
    app.paused_for = 500;
    assert_eq!(app.now(400), 0);
    assert_eq!(app.now(500), 0);
    assert_eq!(app.now(501), 1);
    app.pause(1000);
    assert_eq!(app.now(900), 400);
    app.resume(900);
    assert_eq!(app.paused_for, 500);
    app.paused_for = u64::MAX - 10;
    app.pause(0);
    app.resume(11);
    assert_eq!(app.paused_for, u64::MAX);
    assert_eq!(app.now(u64::MAX), 0);
}

#[test]
fn wall_now_rounds_up_to_the_whole_second() {
    let app = Application::init(settings());
    assert_eq!(app.wall_now(100, 0, 0), 100);
    assert_eq!(app.wall_now(100, 1, 0), 101);
    assert_eq!(app.wall_now(100, 999_999_999, 0), 101);
    assert_eq!(app.wall_now(-100, 0, 0), -100);
    assert_eq!(app.wall_now(-100, 1, 0), -99);
    assert_eq!(app.wall_now(0, 1_500_000_000, 0), 2);
}

#[test]
fn wall_now_is_the_wall_clock_while_never_paused() {
    let app = Application::init(settings());
    for clock in [0, 1, 7 * SECOND, u64::MAX] {
        assert_eq!(app.wall_now(1_705_320_000, 0, clock), 1_705_320_000);
    }
}

#[test]
fn wall_now_takes_off_the_pauses_that_are_over() {
    let mut app = Application::init(settings());
    app.paused_for = 2 * SECOND;
    assert_eq!(app.wall_now(100, 0, 50 * SECOND), 98);
    assert_eq!(app.wall_now(100, 1, 50 * SECOND), 99);
    app.paused_for = 2 * SECOND + 1;
    assert_eq!(app.wall_now(100, 0, 50 * SECOND), 98);
    assert_eq!(app.wall_now(100, 1, 50 * SECOND), 98);
    assert_eq!(app.wall_now(100, 2, 50 * SECOND), 99);
    assert_eq!(app.wall_now(0, 0, 50 * SECOND), -2);
}

#[test]
fn wall_now_takes_off_the_pause_that_is_on() {
    let mut app = Application::init(settings());
    app.paused_for = 5 * SECOND;
    app.pause(7 * SECOND);
    assert_eq!(app.wall_now(1_705_320_000, 0, 7 * SECOND), 1_705_319_995);
    assert_eq!(app.wall_now(1_705_320_000, 0, 10 * SECOND), 1_705_319_992);
    assert_eq!(app.wall_now(1_705_320_003, 0, 10 * SECOND), 1_705_319_995);
    assert_eq!(app.wall_now(1_705_320_000, 1, 10 * SECOND), 1_705_319_993);
    assert_eq!(app.wall_now(1_705_320_000, 0, 10 * SECOND + 1), 1_705_319_992);
    assert_eq!(app.wall_now(1_705_320_000, 1, 10 * SECOND + 1), 1_705_319_992);
}

#[test]
fn wall_now_ignores_a_pause_that_begins_after_the_clock_reading() {
    let mut app = Application::init(settings());
    app.pause(7 * SECOND);
    assert_eq!(app.wall_now(100, 0, 6 * SECOND), 100);
    assert_eq!(app.wall_now(100, 0, 7 * SECOND), 100);
    assert_eq!(app.wall_now(100, 0, 8 * SECOND), 99);
}

#[test]
fn wall_now_stands_still_during_a_pause() {
    let mut app = Application::init(settings());
    app.paused_for = 3 * SECOND + 250;
    app.pause(20 * SECOND);
    let at_the_start = app.wall_now(1000, 500, 20 * SECOND);
    for passed in [0u64, 1, 999_999_999, SECOND, 90 * SECOND + 17] {
        let wall = 1000 * (SECOND as i128) + 500 + passed as i128;
        let seconds = (wall / SECOND as i128) as i64;
        let nanos = (wall % SECOND as i128) as u32;
        assert_eq!(app.wall_now(seconds, nanos, 20 * SECOND + passed), at_the_start);
    }
}

#[test]
fn wall_now_goes_on_after_a_pause_where_it_stood() {
    let mut app = Application::init(settings());
    app.pause(20 * SECOND);
    let paused = app.wall_now(1000, 0, 50 * SECOND);
    assert_eq!(paused, 970);
    app.resume(50 * SECOND);
    assert_eq!(app.paused_for, 30 * SECOND);
    assert_eq!(app.wall_now(1000, 0, 50 * SECOND), paused);
    assert_eq!(app.wall_now(1010, 0, 60 * SECOND), paused + 10);
}

#[test]
fn wall_now_lags_as_the_timers_now_does() {
    let mut app = Application::init(settings());
    app.paused_for = 4 * SECOND;
    app.pause(30 * SECOND);
    for clock in [30u64, 31, 45, 600] {
        let lag = clock * SECOND - app.now(clock * SECOND);
        assert_eq!(lag % SECOND, 0);
        let wall = 1_705_320_000i64;
        assert_eq!(wall - app.wall_now(wall, 0, clock * SECOND), (lag / SECOND) as i64);
    }
}

#[test]
fn wall_now_rounding_keeps_the_order_of_whole_seconds() {
    let mut app = Application::init(settings());
    for paused in [0u64, 1, 999_999_999, SECOND, 3 * SECOND + 7] {
        app.paused_for = paused;
        for on in [None, Some(0u64), Some(1), Some(SECOND + 3)] {
            app.paused_at = on.map(|run| 100 - run.min(100));
            let run = on.map(|run| run.min(100)).unwrap_or(0);
            for seconds in -3i64..=3 {
                for nanos in [0u32, 1, 500_000_000, 999_999_999] {
                    let exact = seconds as i128 * 1_000_000_000 + nanos as i128
                        - paused as i128
                        - run as i128;
                    let now = app.wall_now(seconds, nanos, 100);
                    for instant in -8i64..=8 {
                        assert_eq!((instant as i128) * 1_000_000_000 < exact, instant < now);
                    }
                }
            }
        }
    }
}

#[test]
fn wall_now_is_held_within_the_range() {
    let mut app = Application::init(settings());
    assert_eq!(app.wall_now(i64::MAX, 1, 0), i64::MAX);
    assert_eq!(app.wall_now(i64::MAX, u32::MAX, 0), i64::MAX);
    app.paused_for = u64::MAX;
    assert_eq!(app.wall_now(i64::MIN, 0, 0), i64::MIN);
    assert_eq!(app.wall_now(i64::MIN + 18_446_744_074, 0, 0), i64::MIN + 1);
    app.pause(0);
    assert_eq!(app.wall_now(i64::MIN + 18_446_744_074, 0, u64::MAX), i64::MIN);
    assert_eq!(app.wall_now(i64::MIN + 2 * 18_446_744_074, 0, u64::MAX), i64::MIN + 1);
}

#[test]
fn a_task_drawn_during_a_pause_is_judged_at_the_paused_instant() {
    let mut app = app_with(
        Timer::Working(0, 0),
        Calendar::Ready(1, vec![task("starts in the pause", 1, Some(1_705_319_996))]),
    );
    app.paused_for = 5 * SECOND;
    app.pause(7 * SECOND);
    // Ten seconds into the pause the wall clock has passed the start; the
    // selector's clock has not.
    let wall_now = app.wall_now(1_705_320_010, 0, 17 * SECOND);
    assert_eq!(wall_now, 1_705_319_995);
    app.choose_event(wall_now);
    assert_eq!(shown(&app), None);
    app.resume(17 * SECOND);
    let wall_now = app.wall_now(1_705_320_012, 0, 19 * SECOND);
    assert_eq!(wall_now, 1_705_319_997);
    app.choose_event(wall_now);
    assert_eq!(shown(&app), Some("starts in the pause"));
}

#[test]
fn tick_reports_a_change_of_phase() {
    let mut app = app_with(Timer::Working(0, 0), Calendar::new());
    assert!(!app.tick(1499 * SECOND, 0, None));
    assert_eq!(app.timer, Timer::Working(0, 0));
    assert!(app.tick(1500 * SECOND, 0, None));
    assert_eq!(app.timer, Timer::ShortBreak(1, 1500 * SECOND));
    assert!(!app.tick(1500 * SECOND, 0, None));
}

#[test]
fn tick_of_an_idle_timer_reports_nothing() {
    let mut app = Application::init(settings());
    assert!(!app.tick(u64::MAX, 0, None));
    assert_eq!(app.timer, Timer::NotRunning);
}

#[test]
fn tick_takes_the_answer_in() {
    let mut app = Application::init(settings());
    let order = app.events.reset(&app.settings.calendar);
    assert_eq!(order.urls, ["https://dav.example/"]);
    app.tick(0, 0, None);
    assert!(app.events.refreshing());
    app.tick(
        0,
        0,
        Some(Refreshed { generation: order.generation, events: vec![task("a", 1, None)] }),
    );
    assert!(matches!(&app.events, Calendar::Ready(1, events) if events.len() == 1));
    assert_eq!(shown(&app), None);
}

#[test]
fn tick_shows_a_task_while_working() {
    let mut app = app_with(Timer::Working(0, 0), Calendar::Ready(1, vec![task("a", 1, None)]));
    app.tick(1, 100, None);
    assert_eq!(shown(&app), Some("a"));
}

#[test]
fn tick_shows_a_task_from_the_list_that_just_came_in() {
    let mut app = app_with(Timer::Working(0, 0), Calendar::Working(3));
    app.tick(1, 100, Some(Refreshed { generation: 3, events: vec![task("fresh", 1, None)] }));
    assert_eq!(shown(&app), Some("fresh"));
}

#[test]
fn tick_shows_a_task_in_the_work_interval_that_just_began() {
    let mut app = app_with(
        Timer::ShortBreak(1, 0),
        Calendar::Ready(1, vec![task("a", 1, None)]),
    );
    app.tick(599 * SECOND, 100, None);
    assert_eq!(shown(&app), None);
    assert!(app.tick(600 * SECOND, 100, None));
    assert!(app.timer.working());
    assert_eq!(shown(&app), Some("a"));
}

#[test]
fn tick_shows_no_task_outside_work() {
    for timer in [Timer::NotRunning, Timer::ShortBreak(1, 0), Timer::LongBreak(0)] {
        let mut app = app_with(timer, Calendar::Ready(1, vec![task("a", 1, None)]));
        app.tick(1, 100, None);
        assert_eq!(shown(&app), None);
    }
}

#[test]
fn tick_shows_no_task_while_refreshing_or_without_tasks() {
    let mut app = app_with(Timer::Working(0, 0), Calendar::Working(1));
    app.tick(1, 100, None);
    assert_eq!(shown(&app), None);
    let mut app = app_with(Timer::Working(0, 0), Calendar::Ready(1, vec![]));
    app.tick(1, 100, None);
    assert_eq!(shown(&app), None);
}

#[test]
fn tick_leaves_the_shown_task_alone() {
    let mut app = app_with(Timer::Working(0, 0), Calendar::Ready(1, vec![task("a", 1, None)]));
    app.chosen_event = Some(task("shown", 1, None));
    for step in 0..20 {
        app.tick(step, 100, None);
        assert_eq!(shown(&app), Some("shown"));
    }
}

#[test]
fn tick_shows_nothing_when_no_task_may_be_put_forward() {
    let mut app = app_with(
        Timer::Working(0, 0),
        Calendar::Ready(1, vec![task("later", 1, Some(500)), task("weightless", 12, None)]),
    );
    app.tick(1, 500, None);
    assert_eq!(shown(&app), None);
    app.tick(2, 501, None);
    assert_eq!(shown(&app), Some("later"));
}

#[test]
fn tick_leaves_settings_and_pauses_alone() {
    let mut app = app_with(Timer::Working(0, 0), Calendar::Ready(1, vec![task("a", 1, None)]));
    app.paused_for = 9;
    app.tick(1500 * SECOND, 100, None);
    assert_eq!(app.paused_for, 9);
    assert_eq!(app.paused_at, None);
    assert_eq!(app.settings.timer.long_rest_interval, 4);
}

#[test]
fn choose_event_replaces_the_shown_task() {
    let mut app = app_with(Timer::NotRunning, Calendar::Ready(1, vec![task("a", 1, None)]));
    app.chosen_event = Some(task("shown", 1, None));
    app.choose_event(100);
    assert_eq!(shown(&app), Some("a"));
}

#[test]
fn choose_event_shows_nothing_when_there_is_no_candidate() {
    let mut app = app_with(Timer::Working(0, 0), Calendar::Ready(1, vec![task("a", 1, Some(200))]));
    app.chosen_event = Some(task("shown", 1, None));
    app.choose_event(100);
    assert_eq!(shown(&app), None);
    let mut app = app_with(Timer::Working(0, 0), Calendar::Ready(1, vec![]));
    app.chosen_event = Some(task("shown", 1, None));
    app.choose_event(100);
    assert_eq!(shown(&app), None);
}

#[test]
fn choose_event_waits_for_the_refresh() {
    let mut app = app_with(Timer::Working(0, 0), Calendar::Working(2));
    app.chosen_event = Some(task("shown", 1, None));
    app.choose_event(100);
    assert_eq!(shown(&app), Some("shown"));
}

#[test]
fn head_line_joins_phase_and_time() {
    assert_eq!(head_line(TimerDiscriminants::Working, "24m 59s"), "Working : 24m 59s");
    assert_eq!(head_line(TimerDiscriminants::NotRunning, "0ms"), "NotRunning : 0ms");
    assert_eq!(head_line(TimerDiscriminants::ShortBreak, ""), "ShortBreak : ");
    assert_eq!(head_line(TimerDiscriminants::LongBreak, "x"), "LongBreak : x");
}

#[test]
fn heading_writes_the_time_left() {
    let app = app_with(Timer::Working(0, 0), Calendar::new());
    assert_eq!(app.heading(0), "Working : 25m");
    assert_eq!(app.heading(SECOND), "Working : 24m 59s");
    assert_eq!(app.heading(1499 * SECOND + 999_000_000), "Working : 1ms");
    let app = app_with(Timer::LongBreak(10 * SECOND), Calendar::new());
    assert_eq!(app.heading(10 * SECOND), "LongBreak : 30m");
    let app = app_with(Timer::ShortBreak(1, 0), Calendar::new());
    assert_eq!(app.heading(598 * SECOND + 500_000_000), "ShortBreak : 1s 500ms");
}

#[test]
fn heading_is_that_of_pretty_duration() {
    let app = app_with(Timer::Working(0, 0), Calendar::new());
    for now in [0, 1, 999_999, SECOND, 61 * SECOND + 5_000_000, 1499 * SECOND] {
        let left = Duration::from_nanos(1500 * SECOND - now);
        let expected = format!("Working : {}", pretty_duration::pretty_duration(&left, None));
        assert_eq!(app.heading(now), expected);
    }
}

#[test]
fn heading_shows_nothing_left_after_the_deadline_and_when_idle() {
    let app = app_with(Timer::Working(0, 0), Calendar::new());
    assert_eq!(app.heading(1500 * SECOND), "Working : 0ms");
    assert_eq!(app.heading(9000 * SECOND), "Working : 0ms");
    let app = Application::init(settings());
    assert_eq!(app.heading(5), "NotRunning : 0ms");
}
