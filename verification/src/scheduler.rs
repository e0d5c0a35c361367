//! The scheduler: pending timers in order of their due time, and one
//! first-in-first-out queue of ready tasks for each priority level.
//!
//! Every task has at most one instance in flight. Time is counted in ticks
//! of one millisecond.
use vstd::prelude::*;
use crate::task::{Task, HIGH, LOW};

verus! {

/// A task that becomes ready at tick `due`.
#[derive(Clone, Copy, Debug, PartialEq, Eq, Structural)]
pub struct Timer {
    pub due: u64,
    pub task: Task,
}

/// Timers in order of their due time.
pub open spec fn sorted(timers: Seq<Timer>) -> bool {
    forall|i: int, j: int| 0 <= i < j < timers.len() ==> timers[i].due <= timers[j].due
}

/// Where a timer due at `due` joins the timers: behind every timer that is
/// due no later, so that timers due at the same tick fire in the order in
/// which they were set.
pub open spec fn slot(timers: Seq<Timer>, due: u64) -> int
    decreases timers.len(),
{
    if timers.len() == 0 || timers.last().due <= due {
        timers.len() as int
    } else {
        slot(timers.drop_last(), due)
    }
}

/// In sorted timers the slot for a due time parts those due no later from
/// those due later.
pub proof fn lemma_slot(timers: Seq<Timer>, due: u64)
    requires
        sorted(timers),
    ensures
        0 <= slot(timers, due) <= timers.len(),
        forall|j: int| 0 <= j < slot(timers, due) ==> (#[trigger] timers[j]).due <= due,
        forall|j: int| slot(timers, due) <= j < timers.len() ==> (#[trigger] timers[j]).due > due,
    decreases timers.len(),
{
    if timers.len() == 0 || timers.last().due <= due {
        assert forall|j: int| 0 <= j < timers.len() implies (#[trigger] timers[j]).due <= due by {
            if j < timers.len() - 1 {
                assert(timers[j].due <= timers[timers.len() - 1].due);
            }
        }
    } else {
        let rest = timers.drop_last();
        assert forall|i: int, j: int| 0 <= i < j < rest.len() implies rest[i].due <= rest[j].due by {
            assert(timers[i].due <= timers[j].due);
        }
        lemma_slot(rest, due);
        assert forall|j: int| 0 <= j < slot(timers, due) implies (#[trigger] timers[j]).due
            <= due by {
            assert(rest[j].due <= due);
        }
        assert forall|j: int| slot(timers, due) <= j < timers.len() implies (
        #[trigger] timers[j]).due > due by {
            if j < timers.len() - 1 {
                assert(rest[j].due > due);
            }
        }
    }
}

/// What the scheduler holds: the view of a `Scheduler`.
pub struct Agenda {
    /// The current tick.
    pub now: u64,
    /// Pending timers, the next to fire first.
    pub timers: Seq<Timer>,
    /// Ready tasks of priority `HIGH`, the next to run first.
    pub high: Seq<Task>,
    /// Ready tasks of priority `LOW`, the next to run first.
    pub low: Seq<Task>,
}

impl Agenda {
    /// An agenda at tick zero with nothing pending.
    pub open spec fn empty() -> Agenda {
        Agenda { now: 0, timers: Seq::empty(), high: Seq::empty(), low: Seq::empty() }
    }

    /// Whether a timer is set for `task`.
    pub open spec fn delayed(self, task: Task) -> bool {
        exists|i: int| 0 <= i < self.timers.len() && (#[trigger] self.timers[i]).task == task
    }

    /// Whether `task` waits in a ready queue.
    pub open spec fn ready(self, task: Task) -> bool {
        self.high.contains(task) || self.low.contains(task)
    }

    /// Whether an instance of `task` is in flight.
    pub open spec fn pending(self, task: Task) -> bool {
        self.delayed(task) || self.ready(task)
    }

    /// Timers are in order of their due time, every queue holds tasks of
    /// its own priority, and no task is in flight twice.
    pub open spec fn wf(self) -> bool {
        &&& sorted(self.timers)
        &&& forall|i: int, j: int|
            0 <= i < j < self.timers.len() ==> (#[trigger] self.timers[i]).task != (
            #[trigger] self.timers[j]).task
        &&& forall|i: int| 0 <= i < self.timers.len() ==> !self.ready((#[trigger] self.timers[i]).task)
        &&& self.high.no_duplicates()
        &&& self.low.no_duplicates()
        &&& forall|i: int| 0 <= i < self.high.len() ==> (#[trigger] self.high[i]).spec_priority() == HIGH
        &&& forall|i: int| 0 <= i < self.low.len() ==> (#[trigger] self.low[i]).spec_priority() == LOW
    }

    /// The agenda with `task` at the back of the ready queue of its
    /// priority.
    pub open spec fn enqueue(self, task: Task) -> Agenda {
        if task.spec_priority() == HIGH {
            Agenda { high: self.high.push(task), ..self }
        } else {
            Agenda { low: self.low.push(task), ..self }
        }
    }

    /// The agenda after `task` was triggered: ready behind the tasks of its
    /// priority that are ready already. A task that is in flight is not
    /// triggered again.
    pub open spec fn spawn(self, task: Task) -> Agenda {
        if self.pending(task) {
            self
        } else {
            self.enqueue(task)
        }
    }

    /// The tick that lies `delay` ticks ahead, or the last tick of all if
    /// the clock does not reach that far.
    pub open spec fn tick_after(self, delay: u64) -> u64 {
        if self.now + delay > u64::MAX {
            u64::MAX
        } else {
            (self.now + delay) as u64
        }
    }

    /// The agenda after a timer was set that makes `task` ready `delay`
    /// ticks from now. A task that is in flight gets no timer.
    pub open spec fn spawn_after(self, task: Task, delay: u64) -> Agenda {
        if self.pending(task) {
            self
        } else {
            let due = self.tick_after(delay);
            Agenda { timers: self.timers.insert(slot(self.timers, due), Timer { due, task }), ..self }
        }
    }

    /// The agenda after its first timer fired: the timer's task is ready.
    pub open spec fn release(self) -> Agenda {
        Agenda { timers: self.timers.drop_first(), ..self }.enqueue(self.timers.first().task)
    }

    /// The agenda after every timer due at `now` or before has fired, the
    /// earliest first.
    pub open spec fn fire(self, now: u64) -> Agenda
        decreases self.timers.len(),
    {
        if self.timers.len() > 0 && self.timers.first().due <= now {
            self.release().fire(now)
        } else {
            self
        }
    }

    /// The agenda once the clock shows `now`: the timers that are due have
    /// fired. The clock never runs backwards.
    pub open spec fn advance(self, now: u64) -> Agenda {
        let tick = if now > self.now {
            now
        } else {
            self.now
        };
        Agenda { now: tick, ..self.fire(tick) }
    }

    /// The task that runs next: the first ready task of the highest
    /// priority at which one is ready.
    pub open spec fn next(self) -> Option<Task> {
        if self.high.len() > 0 {
            Some(self.high.first())
        } else if self.low.len() > 0 {
            Some(self.low.first())
        } else {
            None
        }
    }

    /// The agenda after the task that runs next has left its queue.
    pub open spec fn after_next(self) -> Agenda {
        if self.high.len() > 0 {
            Agenda { high: self.high.drop_first(), ..self }
        } else if self.low.len() > 0 {
            Agenda { low: self.low.drop_first(), ..self }
        } else {
            self
        }
    }

    /// The tick at which the next timer fires.
    pub open spec fn next_due(self) -> Option<u64> {
        if self.timers.len() > 0 {
            Some(self.timers.first().due)
        } else {
            None
        }
    }
}

/// Making a task ready that is not in flight keeps the agenda well formed;
/// the task is then ready, and nothing else changes its state.
pub proof fn lemma_enqueue(agenda: Agenda, task: Task)
    requires
        agenda.wf(),
        !agenda.pending(task),
    ensures
        agenda.enqueue(task).wf(),
        agenda.enqueue(task).ready(task),
        forall|other: Task| other != task ==> (agenda.enqueue(task).ready(other) <==> agenda.ready(other)),
        forall|other: Task| agenda.enqueue(task).delayed(other) <==> agenda.delayed(other),
{
    let after = agenda.enqueue(task);
    if task.spec_priority() == HIGH {
        assert(after.high.last() == task);
        assert forall|other: Task| other != task implies (after.ready(other) <==> agenda.ready(other)) by {
            if agenda.high.contains(other) {
                let i = choose|i: int| 0 <= i < agenda.high.len() && agenda.high[i] == other;
                assert(after.high[i] == other);
            }
        }
        assert forall|i: int| 0 <= i < after.timers.len() implies !after.ready(
            (#[trigger] after.timers[i]).task,
        ) by {
            assert(!agenda.ready(agenda.timers[i].task));
        }
    } else {
        assert(after.low.last() == task);
        assert forall|other: Task| other != task implies (after.ready(other) <==> agenda.ready(other)) by {
            if agenda.low.contains(other) {
                let i = choose|i: int| 0 <= i < agenda.low.len() && agenda.low[i] == other;
                assert(after.low[i] == other);
            }
        }
        assert forall|i: int| 0 <= i < after.timers.len() implies !after.ready(
            (#[trigger] after.timers[i]).task,
        ) by {
            assert(!agenda.ready(agenda.timers[i].task));
        }
    }
}

/// Setting a timer for a task that is not in flight keeps the agenda well
/// formed; the task is then delayed, and nothing else changes its state.
pub proof fn lemma_spawn_after(agenda: Agenda, task: Task, delay: u64)
    requires
        agenda.wf(),
        !agenda.pending(task),
    ensures
        agenda.spawn_after(task, delay).wf(),
        agenda.spawn_after(task, delay).delayed(task),
        forall|other: Task|
            other != task ==> (agenda.spawn_after(task, delay).delayed(other) <==> agenda.delayed(other)),
        agenda.spawn_after(task, delay).timers.contains(Timer { due: agenda.tick_after(delay), task }),
        forall|timer: Timer|
            agenda.timers.contains(timer) ==> agenda.spawn_after(task, delay).timers.contains(timer),
{
    let due = agenda.tick_after(delay);
    let at = slot(agenda.timers, due);
    let timer = Timer { due, task };
    let after = agenda.spawn_after(task, delay);
    lemma_slot(agenda.timers, due);
    assert(after.timers[at] == timer);
    assert forall|kept: Timer| agenda.timers.contains(kept) implies after.timers.contains(kept) by {
        let i = choose|i: int| 0 <= i < agenda.timers.len() && agenda.timers[i] == kept;
        if i < at {
            assert(after.timers[i] == kept);
        } else {
            assert(after.timers[i + 1] == kept);
        }
    }
    assert forall|other: Task| other != task implies (after.delayed(other) <==> agenda.delayed(other)) by {
        if agenda.delayed(other) {
            let i = choose|i: int| 0 <= i < agenda.timers.len() && agenda.timers[i].task == other;
            if i < at {
                assert(after.timers[i].task == other);
            } else {
                assert(after.timers[i + 1].task == other);
            }
        }
        if after.delayed(other) {
            let i = choose|i: int| 0 <= i < after.timers.len() && after.timers[i].task == other;
            if i < at {
                assert(agenda.timers[i].task == other);
            } else {
                assert(agenda.timers[i - 1].task == other);
            }
        }
    }
    assert forall|i: int, j: int| 0 <= i < j < after.timers.len() implies after.timers[i].due
        <= after.timers[j].due && (#[trigger] after.timers[i]).task != (#[trigger] after.timers[j]).task by {
        let a = if i < at { i } else { i - 1 };
        let b = if j < at { j } else { j - 1 };
        if i != at && j != at {
            assert(agenda.timers[a].due <= agenda.timers[b].due);
            assert(agenda.timers[a].task != agenda.timers[b].task);
        } else if i == at {
            assert(agenda.timers[b].task != task);
        } else {
            assert(agenda.timers[a].task != task);
        }
    }
    assert forall|i: int| 0 <= i < after.timers.len() implies !after.ready(
        (#[trigger] after.timers[i]).task,
    ) by {
        if i < at {
            assert(!agenda.ready(agenda.timers[i].task));
        } else if i > at {
            assert(!agenda.ready(agenda.timers[i - 1].task));
        }
    }
}

/// The firing of the first timer keeps the agenda well formed and leaves
/// every task in flight that was in flight.
pub proof fn lemma_release(agenda: Agenda)
    requires
        agenda.wf(),
        agenda.timers.len() > 0,
    ensures
        agenda.release().wf(),
        forall|task: Task| agenda.release().pending(task) <==> agenda.pending(task),
        forall|task: Task| agenda.release().delayed(task) ==> agenda.delayed(task),
{
    let task = agenda.timers.first().task;
    let rest = Agenda { timers: agenda.timers.drop_first(), ..agenda };
    assert(agenda.timers[0].task == task);
    assert forall|i: int| 0 <= i < rest.timers.len() implies (#[trigger] rest.timers[i])
        == agenda.timers[i + 1] by {}
    assert(rest.wf()) by {
        assert forall|i: int, j: int| 0 <= i < j < rest.timers.len() implies rest.timers[i].due
            <= rest.timers[j].due && (#[trigger] rest.timers[i]).task != (#[trigger] rest.timers[j]).task by {
            assert(agenda.timers[i + 1].due <= agenda.timers[j + 1].due);
            assert(agenda.timers[i + 1].task != agenda.timers[j + 1].task);
        }
        assert forall|i: int| 0 <= i < rest.timers.len() implies !rest.ready(
            (#[trigger] rest.timers[i]).task,
        ) by {
            assert(!agenda.ready(agenda.timers[i + 1].task));
        }
    }
    assert(!rest.delayed(task)) by {
        if rest.delayed(task) {
            let i = choose|i: int| 0 <= i < rest.timers.len() && rest.timers[i].task == task;
            assert(agenda.timers[0].task != agenda.timers[i + 1].task);
        }
    }
    assert(!rest.ready(task)) by {
        assert(!agenda.ready(agenda.timers[0].task));
    }
    assert forall|other: Task| rest.delayed(other) implies agenda.delayed(other) by {
        let i = choose|i: int| 0 <= i < rest.timers.len() && rest.timers[i].task == other;
        assert(agenda.timers[i + 1].task == other);
    }
    assert forall|other: Task| other != task && agenda.delayed(other) implies rest.delayed(other) by {
        let i = choose|i: int| 0 <= i < agenda.timers.len() && agenda.timers[i].task == other;
        assert(rest.timers[i - 1].task == other);
    }
    lemma_enqueue(rest, task);
    let after = agenda.release();
    assert(agenda.delayed(task));
    assert forall|other: Task| after.pending(other) <==> agenda.pending(other) by {
        if other != task {
            assert(after.ready(other) <==> rest.ready(other));
            assert(after.delayed(other) <==> rest.delayed(other));
            assert(rest.ready(other) <==> agenda.ready(other));
        }
    }
}

/// The firing of due timers keeps the agenda well formed and leaves every
/// task in flight that was in flight; the ready queues grow at the back, by
/// tasks that were delayed.
pub proof fn lemma_fire(agenda: Agenda, now: u64)
    requires
        agenda.wf(),
    ensures
        agenda.fire(now).wf(),
        agenda.fire(now).now == agenda.now,
        forall|task: Task| agenda.fire(now).pending(task) <==> agenda.pending(task),
        forall|task: Task| agenda.fire(now).delayed(task) ==> agenda.delayed(task),
        agenda.high.is_prefix_of(agenda.fire(now).high),
        agenda.low.is_prefix_of(agenda.fire(now).low),
        forall|i: int|
            agenda.high.len() <= i < agenda.fire(now).high.len() ==> agenda.delayed(
                #[trigger] agenda.fire(now).high[i],
            ),
        forall|i: int|
            agenda.low.len() <= i < agenda.fire(now).low.len() ==> agenda.delayed(
                #[trigger] agenda.fire(now).low[i],
            ),
    decreases agenda.timers.len(),
{
    if agenda.timers.len() > 0 && agenda.timers.first().due <= now {
        let step = agenda.release();
        let task = agenda.timers.first().task;
        lemma_release(agenda);
        lemma_fire(step, now);
        let end = step.fire(now);
        assert(agenda.timers[0].task == task);
        assert(agenda.delayed(task));
        assert forall|i: int| agenda.high.len() <= i < end.high.len() implies agenda.delayed(
            #[trigger] end.high[i],
        ) by {
            if i < step.high.len() {
                assert(end.high[i] == step.high[i]);
            } else {
                assert(step.delayed(end.high[i]));
            }
        }
        assert forall|i: int| agenda.low.len() <= i < end.low.len() implies agenda.delayed(
            #[trigger] end.low[i],
        ) by {
            if i < step.low.len() {
                assert(end.low[i] == step.low[i]);
            } else {
                assert(step.delayed(end.low[i]));
            }
        }
    }
}

/// A timer that is due fires: once the clock shows `now`, the task of
/// every timer due at `now` or before is ready.
pub proof fn lemma_fire_due(agenda: Agenda, now: u64, i: int)
    requires
        agenda.wf(),
        0 <= i < agenda.timers.len(),
        agenda.timers[i].due <= now,
    ensures
        agenda.fire(now).ready(agenda.timers[i].task),
    decreases agenda.timers.len(),
{
    let task = agenda.timers[i].task;
    assert(agenda.timers[0].due <= agenda.timers[i].due);
    let step = agenda.release();
    lemma_release(agenda);
    lemma_fire(step, now);
    let end = step.fire(now);
    if i == 0 {
        let rest = Agenda { timers: agenda.timers.drop_first(), ..agenda };
        assert(!agenda.ready(agenda.timers[0].task));
        lemma_enqueue(rest, task);
        assert(step.ready(task));
        if step.high.contains(task) {
            let k = choose|k: int| 0 <= k < step.high.len() && step.high[k] == task;
            assert(end.high[k] == task);
        } else {
            let k = choose|k: int| 0 <= k < step.low.len() && step.low[k] == task;
            assert(end.low[k] == task);
        }
    } else {
        assert(step.timers[i - 1] == agenda.timers[i]);
        lemma_fire_due(step, now, i - 1);
    }
}

/// Once the clock was moved to `now`, the task of every timer that was due
/// at `now` or before is ready.
pub proof fn lemma_advance_due(agenda: Agenda, now: u64, i: int)
    requires
        agenda.wf(),
        0 <= i < agenda.timers.len(),
        agenda.timers[i].due <= now,
    ensures
        agenda.advance(now).ready(agenda.timers[i].task),
{
    let tick = if now > agenda.now {
        now
    } else {
        agenda.now
    };
    lemma_fire_due(agenda, tick, i);
    assert(agenda.advance(now).high == agenda.fire(tick).high);
    assert(agenda.advance(now).low == agenda.fire(tick).low);
}

/// Taking the next task out of its queue keeps the agenda well formed; the
/// task is then no longer in flight, and nothing else changes its state.
pub proof fn lemma_after_next(agenda: Agenda)
    requires
        agenda.wf(),
        agenda.next() is Some,
    ensures
        agenda.after_next().wf(),
        agenda.pending(agenda.next()->0),
        !agenda.after_next().pending(agenda.next()->0),
        forall|other: Task|
            other != agenda.next()->0 ==> (agenda.after_next().pending(other) <==> agenda.pending(other)),
        forall|other: Task| agenda.after_next().delayed(other) <==> agenda.delayed(other),
{
    let task = agenda.next()->0;
    let after = agenda.after_next();
    if agenda.high.len() > 0 {
        assert(agenda.high[0] == task);
        assert forall|i: int| 0 <= i < after.high.len() implies (#[trigger] after.high[i])
            == agenda.high[i + 1] by {}
        assert forall|other: Task| after.high.contains(other) implies agenda.high.contains(other) by {
            let i = choose|i: int| 0 <= i < after.high.len() && after.high[i] == other;
            assert(agenda.high[i + 1] == other);
        }
        assert(!after.high.contains(task)) by {
            if after.high.contains(task) {
                let i = choose|i: int| 0 <= i < after.high.len() && after.high[i] == task;
                assert(agenda.high[i + 1] == agenda.high[0]);
            }
        }
        assert(!agenda.low.contains(task)) by {
            if agenda.low.contains(task) {
                let i = choose|i: int| 0 <= i < agenda.low.len() && agenda.low[i] == task;
                assert(agenda.low[i].spec_priority() == LOW);
            }
        }
        assert forall|other: Task| other != task && agenda.high.contains(other) implies after.high.contains(
            other,
        ) by {
            let i = choose|i: int| 0 <= i < agenda.high.len() && agenda.high[i] == other;
            assert(after.high[i - 1] == other);
        }
    } else {
        assert(agenda.low[0] == task);
        assert forall|i: int| 0 <= i < after.low.len() implies (#[trigger] after.low[i])
            == agenda.low[i + 1] by {}
        assert forall|other: Task| after.low.contains(other) implies agenda.low.contains(other) by {
            let i = choose|i: int| 0 <= i < after.low.len() && after.low[i] == other;
            assert(agenda.low[i + 1] == other);
        }
        assert(!after.low.contains(task)) by {
            if after.low.contains(task) {
                let i = choose|i: int| 0 <= i < after.low.len() && after.low[i] == task;
                assert(agenda.low[i + 1] == agenda.low[0]);
            }
        }
        assert forall|other: Task| other != task && agenda.low.contains(other) implies after.low.contains(
            other,
        ) by {
            let i = choose|i: int| 0 <= i < agenda.low.len() && agenda.low[i] == other;
            assert(after.low[i - 1] == other);
        }
    }
    assert(!after.delayed(task)) by {
        if agenda.delayed(task) {
            let i = choose|i: int| 0 <= i < agenda.timers.len() && agenda.timers[i].task == task;
            assert(!agenda.ready(agenda.timers[i].task));
        }
    }
    assert forall|i: int| 0 <= i < after.timers.len() implies !after.ready(
        (#[trigger] after.timers[i]).task,
    ) by {
        assert(!agenda.ready(agenda.timers[i].task));
    }
}

/// The scheduler. Its view is an `Agenda`.
#[derive(Debug)]
pub struct Scheduler {
    now: u64,
    timers: Vec<Timer>,
    high: Vec<Task>,
    low: Vec<Task>,
}

impl View for Scheduler {
    type V = Agenda;

    closed spec fn view(&self) -> Agenda {
        Agenda { now: self.now, timers: self.timers@, high: self.high@, low: self.low@ }
    }
}

/// Whether `task` is in `queue`.
fn queued(queue: &Vec<Task>, task: Task) -> (r: bool)
    ensures
        r == queue@.contains(task),
{
    let mut i: usize = 0;
    while i < queue.len()
        invariant
            i <= queue.len(),
            forall|j: int| 0 <= j < i ==> queue@[j] != task,
        decreases queue.len() - i,
    {
        if queue[i] == task {
            return true;
        }
        i += 1;
    }
    false
}

impl Scheduler {
    /// A scheduler at tick zero with nothing pending.
    pub fn new() -> (scheduler: Scheduler)
        ensures
            scheduler@ == Agenda::empty(),
            scheduler@.wf(),
    {
        Scheduler { now: 0, timers: Vec::new(), high: Vec::new(), low: Vec::new() }
    }

    /// The current tick.
    pub fn now(&self) -> (now: u64)
        ensures
            now == self@.now,
    {
        self.now
    }

    /// Whether an instance of `task` is in flight.
    pub fn is_pending(&self, task: Task) -> (r: bool)
        ensures
            r == self@.pending(task),
    {
        let mut i: usize = 0;
        while i < self.timers.len()
            invariant
                i <= self.timers.len(),
                forall|j: int| 0 <= j < i ==> self.timers@[j].task != task,
            decreases self.timers.len() - i,
        {
            if self.timers[i].task == task {
                return true;
            }
            i += 1;
        }
        queued(&self.high, task) || queued(&self.low, task)
    }

    /// Triggers `task`: it becomes ready behind the tasks of its priority
    /// that are ready already. A task that is in flight is refused and
    /// handed back.
    pub fn spawn(&mut self, task: Task) -> (r: Result<(), Task>)
        requires
            old(self)@.wf(),
        ensures
            final(self)@.wf(),
            final(self)@ == old(self)@.spawn(task),
            r == (if old(self)@.pending(task) {
                Err::<(), Task>(task)
            } else {
                Ok::<(), Task>(())
            }),
    {
        if self.is_pending(task) {
            return Err(task);
        }
        proof {
            lemma_enqueue(self@, task);
        }
        if task.priority() == HIGH {
            self.high.push(task);
        } else {
            self.low.push(task);
        }
        Ok(())
    }

    /// Sets a timer that makes `task` ready `delay` ticks from now. A task
    /// that is in flight is refused and handed back.
    pub fn spawn_after(&mut self, task: Task, delay: u64) -> (r: Result<(), Task>)
        requires
            old(self)@.wf(),
        ensures
            final(self)@.wf(),
            final(self)@ == old(self)@.spawn_after(task, delay),
            r == (if old(self)@.pending(task) {
                Err::<(), Task>(task)
            } else {
                Ok::<(), Task>(())
            }),
    {
        if self.is_pending(task) {
            return Err(task);
        }
        let due: u64 = if delay > u64::MAX - self.now {
            u64::MAX
        } else {
            self.now + delay
        };
        let mut at: usize = self.timers.len();
        assert(self.timers@.subrange(0, at as int) =~= self.timers@);
        while at > 0 && self.timers[at - 1].due > due
            invariant
                at <= self.timers.len(),
                slot(self.timers@, due) == slot(self.timers@.subrange(0, at as int), due),
            decreases at,
        {
            proof {
                let head = self.timers@.subrange(0, at as int);
                assert(head.drop_last() =~= self.timers@.subrange(0, at - 1));
            }
            at -= 1;
        }
        proof {
            let head = self.timers@.subrange(0, at as int);
            assert(slot(head, due) == at);
            lemma_spawn_after(self@, task, delay);
        }
        self.timers.insert(at, Timer { due, task });
        Ok(())
    }

    /// Moves the clock to `now`, unless it is there or beyond already, and
    /// fires the timers that are due, the earliest first.
    pub fn advance(&mut self, now: u64)
        requires
            old(self)@.wf(),
        ensures
            final(self)@.wf(),
            final(self)@ == old(self)@.advance(now),
    {
        let tick: u64 = if now > self.now {
            now
        } else {
            self.now
        };
        proof {
            lemma_fire(self@, tick);
        }
        while self.timers.len() > 0 && self.timers[0].due <= tick
            invariant
                self@.wf(),
                self@.fire(tick) == old(self)@.fire(tick),
            decreases self.timers.len(),
        {
            proof {
                lemma_release(self@);
            }
            let ghost before = self@;
            let timer = self.timers.remove(0);
            if timer.task.priority() == HIGH {
                self.high.push(timer.task);
            } else {
                self.low.push(timer.task);
            }
            assert(self@.timers =~= before.timers.drop_first());
            assert(self@ == before.release());
        }
        self.now = tick;
    }

    /// Takes the task that runs next out of its queue: the first ready
    /// task of the highest priority at which one is ready.
    pub fn next(&mut self) -> (task: Option<Task>)
        requires
            old(self)@.wf(),
        ensures
            final(self)@.wf(),
            task == old(self)@.next(),
            final(self)@ == old(self)@.after_next(),
    {
        proof {
            if self@.next() is Some {
                lemma_after_next(self@);
            }
        }
        if self.high.len() > 0 {
            let task = self.high.remove(0);
            assert(self@.high =~= old(self)@.high.drop_first());
            Some(task)
        } else if self.low.len() > 0 {
            let task = self.low.remove(0);
            assert(self@.low =~= old(self)@.low.drop_first());
            Some(task)
        } else {
            None
        }
    }

    /// The task that would run next.
    pub fn peek(&self) -> (task: Option<Task>)
        ensures
            task == self@.next(),
    {
        if self.high.len() > 0 {
            Some(self.high[0])
        } else if self.low.len() > 0 {
            Some(self.low[0])
        } else {
            None
        }
    }

    /// The tick at which the next timer fires, if a timer is set.
    pub fn next_due(&self) -> (due: Option<u64>)
        ensures
            due == self@.next_due(),
    {
        if self.timers.len() > 0 {
            Some(self.timers[0].due)
        } else {
            None
        }
    }
}

} // verus!
