use task_timer::calendar::Event;
use task_timer::date::{Moment, Offset};
use task_timer::selector::{candidates, pick, select};

fn at(timestamp: i64) -> Option<Moment> {
    Some(Moment { timestamp, offset: Offset::Local })
}

fn task(name: &str, priority: i8, starts: Option<Moment>, due: Option<Moment>) -> Event {
    Event {
        uid: name.to_string(),
        date_stamp: Moment { timestamp: 0, offset: Offset::Local },
        summary: name.to_string(),
        starts,
        due,
        priority,
    }
}

#[test]
fn weight_without_due_is_twelve_less_priority() {
    for priority in 1..=11i8 {
        let w = task("t", priority, None, None).weight(1000);
        assert_eq!(w as i32, 12 - priority as i32);
        assert_eq!(w as i32, (12 - priority as i32).max(0));
    }
    assert_eq!(task("t", 1, None, None).weight(0), 11);
    assert_eq!(task("t", 9, None, None).weight(0), 3);
    assert_eq!(task("t", 11, None, None).weight(0), 1);
}

#[test]
fn weight_does_not_rise_with_the_priority_number() {
    let mut last = u16::MAX;
    for priority in i8::MIN..=i8::MAX {
        let w = task("t", priority, None, None).weight(0);
        assert!(w <= last);
        last = w;
    }
}

#[test]
fn weight_is_zero_from_priority_twelve_on() {
    for priority in 12..=i8::MAX {
        assert_eq!(task("t", priority, None, None).weight(0), 0);
        assert_eq!(task("t", priority, None, at(100)).weight(100), 0);
    }
}

#[test]
fn weight_of_priorities_below_one() {
    assert_eq!(task("t", 0, None, None).weight(0), 12);
    assert_eq!(task("t", -1, None, None).weight(0), 13);
    assert_eq!(task("t", i8::MIN, None, None).weight(0), 140);
    assert_eq!(task("t", i8::MIN, None, at(0)).weight(1), 280);
}

#[test]
fn an_overdue_task_weighs_double() {
    for priority in 1..=11i8 {
        let w = task("t", priority, None, at(99)).weight(100);
        assert_eq!(w as i32, 2 * (12 - priority as i32));
    }
    assert_eq!(task("t", 1, None, at(99)).weight(100), 22);
    assert_eq!(task("t", 11, None, at(99)).weight(100), 2);
}

#[test]
fn an_overdue_task_weighs_at_least_one() {
    for priority in i8::MIN..=i8::MAX {
        assert!(task("t", priority, None, at(-5)).weight(-4) >= 1);
    }
    assert_eq!(task("t", 12, None, at(99)).weight(100), 1);
    assert_eq!(task("t", 13, None, at(99)).weight(100), 1);
    assert_eq!(task("t", i8::MAX, None, at(99)).weight(100), 1);
}

#[test]
fn a_task_is_overdue_only_after_its_due_instant() {
    assert_eq!(task("t", 5, None, at(100)).weight(99), 7);
    assert_eq!(task("t", 5, None, at(100)).weight(100), 7);
    assert_eq!(task("t", 5, None, at(100)).weight(101), 14);
}

#[test]
fn a_task_may_be_put_forward_only_after_its_start() {
    assert!(task("t", 5, None, None).eligible(i64::MIN));
    assert!(!task("t", 5, at(100), None).eligible(99));
    assert!(!task("t", 5, at(100), None).eligible(100));
    assert!(task("t", 5, at(100), None).eligible(101));
}

#[test]
fn candidates_repeat_each_task_by_its_weight() {
    let tasks = vec![
        task("a", 10, None, None),
        task("b", 11, None, at(0)),
        task("c", 12, None, None),
        task("d", 9, at(50), None),
        task("e", 11, None, None),
    ];
    assert_eq!(candidates(&tasks, 10), [0, 0, 1, 1, 4]);
    assert_eq!(candidates(&tasks, 51), [0, 0, 1, 1, 3, 3, 3, 4]);
    assert_eq!(candidates(&tasks, 0), [0, 0, 1, 4]);
}

#[test]
fn candidates_share_is_weight_over_total() {
    let tasks = vec![
        task("a", 1, None, None),
        task("b", 5, None, at(0)),
        task("c", 20, None, at(0)),
        task("d", 20, None, None),
        task("e", 3, at(1000), at(0)),
    ];
    let now = 10;
    let list = candidates(&tasks, now);
    let total: usize = tasks
        .iter()
        .filter(|t| t.eligible(now))
        .map(|t| t.weight(now) as usize)
        .sum();
    assert_eq!(list.len(), total);
    assert_eq!(total, 11 + 14 + 1);
    for (i, t) in tasks.iter().enumerate() {
        let count = list.iter().filter(|&&slot| slot == i).count();
        let expected = if t.eligible(now) { t.weight(now) as usize } else { 0 };
        assert_eq!(count, expected);
    }
}

#[test]
fn candidates_of_nothing_are_none() {
    assert!(candidates(&vec![], 0).is_empty());
    assert!(candidates(&vec![task("a", 12, None, None)], 0).is_empty());
    assert!(candidates(&vec![task("a", 1, at(5), None)], 5).is_empty());
}

#[test]
fn pick_hands_out_the_task_at_the_index() {
    let tasks = vec![task("a", 1, None, None), task("b", 2, None, at(7))];
    let b = pick(&tasks, Some(1)).unwrap();
    assert_eq!(b.summary, "b");
    assert_eq!(b.priority, 2);
    assert_eq!(b.due, at(7));
    assert_eq!(pick(&tasks, Some(0)).unwrap().summary, "a");
}

#[test]
fn pick_without_a_draw_is_nothing() {
    let tasks = vec![task("a", 1, None, None)];
    assert!(pick(&tasks, None).is_none());
    assert!(pick(&tasks, Some(1)).is_none());
    assert!(pick(&tasks, Some(usize::MAX)).is_none());
    assert!(pick(&vec![], Some(0)).is_none());
}

#[test]
fn nothing_is_selected_from_an_empty_list() {
    assert!(select(&vec![], 0).is_none());
    assert!(select(&vec![], i64::MAX).is_none());
}

#[test]
fn nothing_is_selected_when_no_task_has_an_entry() {
    let tasks = vec![
        task("not yet", 1, at(100), None),
        task("weightless", 12, None, None),
        task("late but not yet", 1, at(100), at(0)),
    ];
    for _ in 0..50 {
        assert!(select(&tasks, 100).is_none());
    }
}

#[test]
fn the_only_candidate_is_selected() {
    let tasks = vec![
        task("not yet", 1, at(100), None),
        task("the one", 11, None, None),
        task("weightless", 12, None, None),
    ];
    for _ in 0..50 {
        assert_eq!(select(&tasks, 50).unwrap().summary, "the one");
    }
}

#[test]
fn an_overdue_task_of_no_weight_can_be_selected() {
    let tasks = vec![task("late", 50, None, at(0))];
    assert_eq!(select(&tasks, 1).unwrap().summary, "late");
}

#[test]
fn only_candidates_are_selected() {
    let tasks = vec![
        task("a", 1, None, None),
        task("hidden", 1, at(1000), None),
        task("b", 11, None, None),
        task("none", 12, None, None),
    ];
    let mut seen_a = 0;
    let mut seen_b = 0;
    for _ in 0..600 {
        let chosen = select(&tasks, 10).unwrap();
        match chosen.summary.as_str() {
            "a" => seen_a += 1,
            "b" => seen_b += 1,
            other => panic!("{}", other),
        }
    }
    assert_eq!(seen_a + seen_b, 600);
    assert!(seen_a > 0);
}
