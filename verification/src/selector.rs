//! The task selector: one task drawn at random, the urgent and the overdue
//! more likely than the rest.
//!
//! Every task that may be put forward is entered in the draw as many times
//! as its weight says; one entry is then drawn, each with the same chance.
//! The random draw is the rand crate's; all that leads up to it, and what is
//! made of its outcome, is verified for every outcome.

use crate::calendar::{Event, EventView};
use rand::seq::SliceRandom;
use vstd::prelude::*;

verus! {

/// Whether a task may be put forward at `now`: it has no start, or its
/// start lies before `now`.
pub open spec fn eligible(task: EventView, now: i64) -> bool {
    match task.starts {
        Some(start) => start.timestamp < now,
        None => true,
    }
}

/// Whether a task's due instant lies before `now`.
pub open spec fn overdue(task: EventView, now: i64) -> bool {
    match task.due {
        Some(due) => due.timestamp < now,
        None => false,
    }
}

/// The weight that a priority gives: `12 - priority`, and zero from
/// priority 12 on.
pub open spec fn base_weight(priority: i8) -> int {
    if priority < 12 {
        12 - priority
    } else {
        0
    }
}

/// The weight of a task at `now`: its base weight, doubled once the task
/// is overdue, and then never less than one.
pub open spec fn weight(task: EventView, now: i64) -> int {
    let base = base_weight(task.priority);
    if !overdue(task, now) {
        base
    } else if base >= 1 {
        2 * base
    } else {
        1
    }
}

/// How many times a task is entered in the draw at `now`: its weight if it
/// may be put forward, else not at all.
pub open spec fn entries(task: EventView, now: i64) -> int {
    if eligible(task, now) {
        weight(task, now)
    } else {
        0
    }
}

/// The number of entries that all of `tasks` have together.
pub open spec fn total_entries(tasks: Seq<EventView>, now: i64) -> int
    decreases tasks.len(),
{
    if tasks.len() == 0 {
        0
    } else {
        total_entries(tasks.drop_last(), now) + entries(tasks.last(), now)
    }
}

/// The entries of the draw: the index of each task, once for each of its
/// entries, the tasks in their order.
pub open spec fn slots(tasks: Seq<EventView>, now: i64) -> Seq<int>
    decreases tasks.len(),
{
    if tasks.len() == 0 {
        Seq::empty()
    } else {
        slots(tasks.drop_last(), now) + Seq::new(
            entries(tasks.last(), now) as nat,
            |j: int| tasks.len() - 1,
        )
    }
}

/// The task that a drawn index stands for; none without a draw, and none
/// for an index that is not one of `tasks`.
pub open spec fn picked(tasks: Seq<EventView>, drawn: Option<usize>) -> Option<EventView> {
    match drawn {
        Some(index) => if index < tasks.len() {
            Some(tasks[index as int])
        } else {
            None
        },
        None => None,
    }
}

/// A weight is never negative, and at most 280.
pub proof fn law_weight_bounds(task: EventView, now: i64)
    ensures
        0 <= entries(task, now) <= weight(task, now) <= 280,
{
}

/// Without a due instant the weight is `12 - priority`, but not below
/// zero, and of two such tasks the one with the higher priority number does
/// not weigh more. For the priorities 1 to 11 the weight is `12 - priority`
/// itself.
pub proof fn law_weight_without_due(task: EventView, other: EventView, now: i64)
    requires
        task.due is None,
        other.due is None,
        task.priority <= other.priority,
    ensures
        weight(task, now) == if 12 - task.priority > 0 {
            12 - task.priority
        } else {
            0
        },
        1 <= task.priority <= 11 ==> weight(task, now) == 12 - task.priority,
        weight(task, now) >= weight(other, now),
{
}

/// An overdue task weighs at least one, whatever its priority, and twice
/// its base weight where that is more.
pub proof fn law_overdue_weight(task: EventView, now: i64)
    requires
        overdue(task, now),
    ensures
        weight(task, now) >= 1,
        weight(task, now) >= 2 * base_weight(task.priority),
        weight(task, now) == 1 || weight(task, now) == 2 * base_weight(task.priority),
{
}

/// The draw has as many entries as the tasks have together.
pub proof fn law_slot_count(tasks: Seq<EventView>, now: i64)
    ensures
        slots(tasks, now).len() == total_entries(tasks, now),
        total_entries(tasks, now) >= 0,
    decreases tasks.len(),
{
    if tasks.len() > 0 {
        law_slot_count(tasks.drop_last(), now);
    }
}

/// Each task holds a run of the draw's entries, as long as the task has
/// entries: the run of task `i` begins behind the entries of the tasks
/// before it. So a task's share of the draw is its weight's share of the
/// total.
pub proof fn law_slots_of_task(tasks: Seq<EventView>, now: i64, i: int, j: int)
    requires
        0 <= i < tasks.len(),
        0 <= j < entries(tasks[i], now),
    ensures
        0 <= total_entries(tasks.take(i), now) + j < slots(tasks, now).len(),
        slots(tasks, now)[total_entries(tasks.take(i), now) + j] == i,
    decreases tasks.len(),
{
    let before = tasks.drop_last();
    law_slot_count(before, now);
    law_slot_count(tasks, now);
    law_slot_count(tasks.take(i), now);
    if i == tasks.len() - 1 {
        assert(tasks.take(i) =~= before);
    } else {
        assert(before.take(i) =~= tasks.take(i));
        law_slots_of_task(before, now, i, j);
    }
}

/// Every entry of the draw is the index of a task that may be put forward
/// and has a weight above zero.
pub proof fn law_slot_owner(tasks: Seq<EventView>, now: i64, k: int)
    requires
        0 <= k < slots(tasks, now).len(),
    ensures
        0 <= slots(tasks, now)[k] < tasks.len(),
        eligible(tasks[slots(tasks, now)[k]], now),
        weight(tasks[slots(tasks, now)[k]], now) >= 1,
    decreases tasks.len(),
{
    if tasks.len() > 0 {
        let before = tasks.drop_last();
        if k < slots(before, now).len() {
            law_slot_owner(before, now, k);
        }
    }
}

/// The draw is empty exactly when no task has an entry in it; so it is for
/// an empty list.
pub proof fn law_nothing_to_draw(tasks: Seq<EventView>, now: i64)
    ensures
        slots(tasks, now).len() == 0 <==> forall|i: int|
            0 <= i < tasks.len() ==> entries(#[trigger] tasks[i], now) == 0,
        total_entries(tasks, now) == 0 <==> slots(tasks, now).len() == 0,
        tasks.len() == 0 ==> slots(tasks, now).len() == 0,
    decreases tasks.len(),
{
    law_slot_count(tasks, now);
    if tasks.len() > 0 {
        let before = tasks.drop_last();
        law_nothing_to_draw(before, now);
        law_slot_count(before, now);
        if slots(tasks, now).len() == 0 {
            assert forall|i: int| 0 <= i < tasks.len() implies entries(#[trigger] tasks[i], now)
                == 0 by {
                if i < before.len() {
                    assert(tasks[i] == before[i]);
                }
            }
        }
        if forall|i: int| 0 <= i < tasks.len() ==> entries(#[trigger] tasks[i], now) == 0 {
            assert(entries(tasks[tasks.len() - 1], now) == 0);
            assert forall|i: int| 0 <= i < before.len() implies entries(
                #[trigger] before[i],
                now,
            ) == 0 by {
                assert(before[i] == tasks[i]);
            }
        }
    }
}

impl Event {
    /// Whether the task may be put forward at `now`.
    pub fn eligible(&self, now: i64) -> (yes: bool)
        ensures
            yes == eligible(self@, now),
    {
        match self.starts {
            Some(start) => start.timestamp < now,
            None => true,
        }
    }

    /// The weight of the task at `now`.
    pub fn weight(&self, now: i64) -> (w: u16)
        ensures
            w == weight(self@, now),
            overdue(self@, now) ==> w >= 1,
            w <= 280,
    {
        let base: u16 = if self.priority < 12 {
            (12 - self.priority as i16) as u16
        } else {
            0
        };
        let late = match self.due {
            Some(due) => due.timestamp < now,
            None => false,
        };
        if !late {
            base
        } else if base >= 1 {
            2 * base
        } else {
            1
        }
    }
}

/// Lists the entries of the draw at `now`: the index of each task that may
/// be put forward, as many times as the task's weight says.
pub fn candidates(tasks: &Vec<Event>, now: i64) -> (list: Vec<usize>)
    ensures
        list@.len() == slots(tasks.deep_view(), now).len(),
        forall|k: int| 0 <= k < list@.len() ==> list@[k] == slots(tasks.deep_view(), now)[k],
        forall|k: int| 0 <= k < list@.len() ==> list@[k] < tasks.len(),
{
    let ghost all = tasks.deep_view();
    let mut list: Vec<usize> = Vec::new();
    let mut i: usize = 0;
    assert(all.take(0) =~= Seq::empty());
    while i < tasks.len()
        invariant
            i <= tasks.len(),
            all == tasks.deep_view(),
            list@.len() == slots(all.take(i as int), now).len(),
            forall|k: int| 0 <= k < list@.len() ==> list@[k] == slots(all.take(i as int), now)[k],
            forall|k: int| 0 <= k < list@.len() ==> list@[k] < i,
        decreases tasks.len() - i,
    {
        let ghost head = all.take(i + 1);
        let ghost before = slots(all.take(i as int), now);
        proof {
            assert(head.drop_last() =~= all.take(i as int));
            assert(head.last() == tasks@[i as int]@);
        }
        let count: u16 = if tasks[i].eligible(now) {
            tasks[i].weight(now)
        } else {
            0
        };
        let mut j: u16 = 0;
        while j < count
            invariant
                j <= count,
                i < tasks.len(),
                list@.len() == before.len() + j,
                forall|k: int| 0 <= k < before.len() ==> list@[k] == before[k],
                forall|k: int| before.len() <= k < list@.len() ==> list@[k] == i,
                forall|k: int| 0 <= k < before.len() ==> list@[k] < i,
            decreases count - j,
        {
            list.push(i);
            j += 1;
        }
        i += 1;
    }
    assert(all.take(i as int) =~= all);
    list
}

/// Calls `rand::seq::SliceRandom::choose` on the entries, with the
/// generator of `rand::thread_rng`.
///
/// Trusted, not proved: nothing comes out of an empty list, and what comes
/// out of another is one of its entries. Which one is left open.
#[verifier::external_body]
fn draw(list: &Vec<usize>) -> (drawn: Option<usize>)
    ensures
        drawn is None <==> list@.len() == 0,
        drawn matches Some(index) ==> exists|k: int| 0 <= k < list@.len() && list@[k] == index,
{
    list.choose(&mut rand::thread_rng()).copied()
}

/// Hands out a copy of the task that a drawn index stands for.
pub fn pick(tasks: &Vec<Event>, drawn: Option<usize>) -> (chosen: Option<Event>)
    ensures
        chosen.deep_view() == picked(tasks.deep_view(), drawn),
{
    match drawn {
        Some(index) => if index < tasks.len() {
            Some(tasks[index].clone())
        } else {
            None
        },
        None => None,
    }
}

/// What may come out of a draw among `tasks` at `now`: nothing, exactly
/// when no task has an entry; otherwise a task that one of the entries
/// stands for.
pub open spec fn may_be_drawn(tasks: Seq<EventView>, now: i64, chosen: Option<EventView>) -> bool {
    match chosen {
        None => total_entries(tasks, now) == 0,
        Some(task) => exists|k: int|
            0 <= k < slots(tasks, now).len() && 0 <= #[trigger] slots(tasks, now)[k] < tasks.len()
                && tasks[slots(tasks, now)[k]] == task,
    }
}

/// Draws one task at random from those that may be put forward at `now`,
/// each with a chance in proportion to its weight, and hands out a copy of
/// it.
///
/// Which task comes out is left to chance. It is `None` exactly when no
/// task has an entry in the draw; otherwise it is a task that one of the
/// entries stands for, so one that may be put forward and weighs at least
/// one.
pub fn select(tasks: &Vec<Event>, now: i64) -> (chosen: Option<Event>)
    ensures
        may_be_drawn(tasks.deep_view(), now, chosen.deep_view()),
        chosen is None <==> total_entries(tasks.deep_view(), now) == 0,
        tasks.len() == 0 ==> chosen is None,
        chosen matches Some(task) ==> eligible(task@, now) && weight(task@, now) >= 1,
{
    let list = candidates(tasks, now);
    let drawn = draw(&list);
    proof {
        law_slot_count(tasks.deep_view(), now);
        if let Some(index) = drawn {
            let k = choose|k: int| 0 <= k < list@.len() && list@[k] == index;
            law_slot_owner(tasks.deep_view(), now, k);
            assert(slots(tasks.deep_view(), now)[k] == index);
        }
    }
    pick(tasks, drawn)
}

} // verus!
