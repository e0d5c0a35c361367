//! The order that the task table keeps in the scheduler: only periodic
//! tasks have timers, and a triggered task runs before the periodic task of
//! its priority runs again. Hence a task that runs always finds room for
//! what it triggers and for its own timer.
use vstd::prelude::*;
use crate::scheduler::{Agenda, lemma_after_next, lemma_enqueue, lemma_fire, lemma_slot,
    lemma_spawn_after, slot};
use crate::task::{Task, HIGH, LOW};

verus! {

/// In `queue` every triggered task stands before every periodic one.
pub open spec fn triggered_first(queue: Seq<Task>) -> bool {
    forall|i: int, j: int|
        0 <= i < queue.len() && 0 <= j < queue.len() && (#[trigger] queue[i]).periodic() && !(
        #[trigger] queue[j]).periodic() ==> j < i
}

/// A well-formed agenda in which only periodic tasks have timers and every
/// triggered task runs before the periodic task of its priority runs
/// again.
pub open spec fn orderly(agenda: Agenda) -> bool {
    &&& agenda.wf()
    &&& forall|i: int| 0 <= i < agenda.timers.len() ==> (#[trigger] agenda.timers[i]).task.periodic()
    &&& triggered_first(agenda.high)
    &&& triggered_first(agenda.low)
}

/// Triggering a task that is not in flight, while the periodic task of its
/// priority is not ready, keeps the agenda orderly.
pub proof fn lemma_spawn_orderly(agenda: Agenda, task: Task)
    requires
        orderly(agenda),
        !task.periodic(),
        !agenda.pending(task),
        forall|other: Task|
            other.periodic() && other.spec_priority() == task.spec_priority() ==> !agenda.ready(other),
    ensures
        orderly(agenda.spawn(task)),
        agenda.spawn(task) == agenda.enqueue(task),
        forall|other: Task| other != task ==> (agenda.spawn(task).pending(other) <==> agenda.pending(other)),
{
    lemma_enqueue(agenda, task);
    let after = agenda.spawn(task);
    if task.spec_priority() == HIGH {
        assert forall|i: int, j: int|
            0 <= i < after.high.len() && 0 <= j < after.high.len() && (
            #[trigger] after.high[i]).periodic() && !(#[trigger] after.high[j]).periodic() implies j
            < i by {
            if i < agenda.high.len() {
                assert(agenda.high.contains(agenda.high[i]));
                assert(agenda.high[i].spec_priority() == HIGH);
            }
        }
    } else {
        assert forall|i: int, j: int|
            0 <= i < after.low.len() && 0 <= j < after.low.len() && (
            #[trigger] after.low[i]).periodic() && !(#[trigger] after.low[j]).periodic() implies j
            < i by {
            if i < agenda.low.len() {
                assert(agenda.low.contains(agenda.low[i]));
                assert(agenda.low[i].spec_priority() == LOW);
            }
        }
    }
}

/// Setting the timer of a periodic task that is not in flight keeps the
/// agenda orderly.
pub proof fn lemma_spawn_after_orderly(agenda: Agenda, task: Task, delay: u64)
    requires
        orderly(agenda),
        task.periodic(),
        !agenda.pending(task),
    ensures
        orderly(agenda.spawn_after(task, delay)),
        forall|other: Task|
            other != task ==> (agenda.spawn_after(task, delay).pending(other) <==> agenda.pending(other)),
{
    lemma_spawn_after(agenda, task, delay);
    let after = agenda.spawn_after(task, delay);
    let due = agenda.tick_after(delay);
    let at = slot(agenda.timers, due);
    lemma_slot(agenda.timers, due);
    assert forall|i: int| 0 <= i < after.timers.len() implies (#[trigger] after.timers[i]).task.periodic() by {
        if i < at {
            assert(agenda.timers[i].task.periodic());
        } else if i > at {
            assert(agenda.timers[i - 1].task.periodic());
        }
    }
}

/// The passing of time keeps the agenda orderly and every task in flight.
pub proof fn lemma_advance_orderly(agenda: Agenda, now: u64)
    requires
        orderly(agenda),
    ensures
        orderly(agenda.advance(now)),
        forall|task: Task| agenda.advance(now).pending(task) <==> agenda.pending(task),
        agenda.high.is_prefix_of(agenda.advance(now).high),
        agenda.low.is_prefix_of(agenda.advance(now).low),
        forall|i: int|
            agenda.high.len() <= i < agenda.advance(now).high.len() ==> (
            #[trigger] agenda.advance(now).high[i]).periodic(),
        forall|i: int|
            agenda.low.len() <= i < agenda.advance(now).low.len() ==> (
            #[trigger] agenda.advance(now).low[i]).periodic(),
{
    let tick = if now > agenda.now {
        now
    } else {
        agenda.now
    };
    let fired = agenda.fire(tick);
    let after = agenda.advance(now);
    lemma_fire(agenda, tick);
    assert(after.timers == fired.timers && after.high == fired.high && after.low == fired.low);
    assert(after.wf());
    assert forall|task: Task| after.pending(task) <==> agenda.pending(task) by {
        assert(after.delayed(task) <==> fired.delayed(task));
        assert(after.ready(task) <==> fired.ready(task));
        assert(fired.pending(task) <==> agenda.pending(task));
    }
    assert forall|i: int| 0 <= i < after.timers.len() implies (#[trigger] after.timers[i]).task.periodic() by {
        let task = after.timers[i].task;
        assert(fired.delayed(task));
        assert(agenda.delayed(task));
        let k = choose|k: int| 0 <= k < agenda.timers.len() && agenda.timers[k].task == task;
        assert(agenda.timers[k].task.periodic());
    }
    assert forall|i: int| agenda.high.len() <= i < after.high.len() implies (#[trigger] after.high[i]).periodic() by {
        let task = after.high[i];
        assert(agenda.delayed(fired.high[i]));
        let k = choose|k: int| 0 <= k < agenda.timers.len() && agenda.timers[k].task == task;
        assert(agenda.timers[k].task.periodic());
    }
    assert forall|i: int| agenda.low.len() <= i < after.low.len() implies (#[trigger] after.low[i]).periodic() by {
        let task = after.low[i];
        assert(agenda.delayed(fired.low[i]));
        let k = choose|k: int| 0 <= k < agenda.timers.len() && agenda.timers[k].task == task;
        assert(agenda.timers[k].task.periodic());
    }
    assert forall|i: int, j: int|
        0 <= i < after.high.len() && 0 <= j < after.high.len() && (#[trigger] after.high[i]).periodic()
            && !(#[trigger] after.high[j]).periodic() implies j < i by {
        assert(j < agenda.high.len());
        assert(after.high[j] == agenda.high[j]);
        if i < agenda.high.len() {
            assert(after.high[i] == agenda.high[i]);
        }
    }
    assert forall|i: int, j: int|
        0 <= i < after.low.len() && 0 <= j < after.low.len() && (#[trigger] after.low[i]).periodic()
            && !(#[trigger] after.low[j]).periodic() implies j < i by {
        assert(j < agenda.low.len());
        assert(after.low[j] == agenda.low[j]);
        if i < agenda.low.len() {
            assert(after.low[i] == agenda.low[i]);
        }
    }
}

/// Taking the next task out of an orderly agenda leaves it orderly, and
/// leaves the task free to set its own timer and to trigger what it
/// triggers: a periodic task runs only after the tasks it triggered.
pub proof fn lemma_next_orderly(agenda: Agenda)
    requires
        orderly(agenda),
        agenda.next() is Some,
    ensures
        orderly(agenda.after_next()),
        !agenda.after_next().pending(agenda.next()->0),
        agenda.next()->0.periodic() ==> forall|other: Task|
            !other.periodic() && other.spec_priority() == agenda.next()->0.spec_priority()
                ==> !agenda.after_next().pending(other),
        forall|other: Task|
            other != agenda.next()->0 ==> (agenda.after_next().pending(other) <==> agenda.pending(other)),
{
    lemma_after_next(agenda);
    let task = agenda.next()->0;
    let after = agenda.after_next();
    if agenda.high.len() > 0 {
        assert forall|i: int| 0 <= i < after.high.len() implies (#[trigger] after.high[i])
            == agenda.high[i + 1] by {}
        assert forall|i: int, j: int|
            0 <= i < after.high.len() && 0 <= j < after.high.len() && (
            #[trigger] after.high[i]).periodic() && !(#[trigger] after.high[j]).periodic() implies j
            < i by {
            assert(agenda.high[i + 1].periodic() && !agenda.high[j + 1].periodic());
        }
    } else {
        assert forall|i: int| 0 <= i < after.low.len() implies (#[trigger] after.low[i])
            == agenda.low[i + 1] by {}
        assert forall|i: int, j: int|
            0 <= i < after.low.len() && 0 <= j < after.low.len() && (
            #[trigger] after.low[i]).periodic() && !(#[trigger] after.low[j]).periodic() implies j
            < i by {
            assert(agenda.low[i + 1].periodic() && !agenda.low[j + 1].periodic());
        }
    }
    if task.periodic() {
        assert forall|other: Task|
            !other.periodic() && other.spec_priority() == task.spec_priority() implies !after.pending(
            other,
        ) by {
            if agenda.delayed(other) {
                let k = choose|k: int| 0 <= k < agenda.timers.len() && agenda.timers[k].task == other;
                assert(agenda.timers[k].task.periodic());
            }
            if agenda.high.contains(other) {
                let j = choose|j: int| 0 <= j < agenda.high.len() && agenda.high[j] == other;
                assert(agenda.high[j].spec_priority() == HIGH);
                assert(agenda.high[0].periodic() && !agenda.high[j].periodic());
            }
            if agenda.low.contains(other) {
                let j = choose|j: int| 0 <= j < agenda.low.len() && agenda.low[j] == other;
                assert(agenda.low[j].spec_priority() == LOW);
                if agenda.high.len() > 0 {
                    assert(agenda.high[0].spec_priority() == HIGH);
                } else {
                    assert(agenda.low[0].periodic() && !agenda.low[j].periodic());
                }
            }
        }
    }
}

} // verus!
