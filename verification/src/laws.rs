//! What holds of every run of the system.
use vstd::prelude::*;
use crate::angle::Angle;
use crate::cadence::{ORIENTATE_PERIOD, ORIENTATE_START, UPDATE_BEARING_PERIOD,
    UPDATE_BEARING_START};
use crate::ceiling::{Frame, lemma_let_in, lemma_level_covers, stack_admits};
use crate::control::Command;
use crate::leds::{LedId, Leds};
use crate::scheduler::{Agenda, Timer, lemma_advance_due, lemma_enqueue, lemma_spawn_after};
use crate::task::{Resource, Task, HIGH};
use crate::order::{lemma_advance_orderly, lemma_next_orderly, lemma_spawn_after_orderly,
    lemma_spawn_orderly, orderly};
use crate::tasks::Model;
use crate::{ConfiguredDevice, Error, lights_for};

verus! {

/// What happens to the system from outside: the clock moves, or the
/// processor is free and the next task is dispatched while the sensor
/// shows a field vector at some angle.
pub enum Event {
    Clock(u64),
    Dispatch(Angle),
}

impl Model {
    /// The state after `event`.
    pub open spec fn step(self, event: Event) -> Model {
        match event {
            Event::Clock(now) => self.advance(now),
            Event::Dispatch(heading) => self.dispatch(heading),
        }
    }

    /// The state after `events`, the earliest first.
    pub open spec fn replay(self, events: Seq<Event>) -> Model
        decreases events.len(),
    {
        if events.len() == 0 {
            self
        } else {
            self.replay(events.drop_last()).step(events.last())
        }
    }

    /// No sample has been taken yet: the bearing is the zero of start-up
    /// and the ring is dark.
    pub open spec fn unsampled(self) -> bool {
        self.store.bearing_north == (Angle { bits: 0 }) && self.store.board.leds@ == Set::<LedId>::empty()
    }

    /// While the system runs, the ring shows the sector of the published
    /// bearing, unless the display task is ready to run with that very
    /// bearing in hand.
    pub open spec fn display_current(self) -> bool {
        self.fault is None ==> if self.agenda.ready(Task::UpdateDisplay) {
            self.bearing_msg == self.store.bearing_north
        } else {
            self.store.board.leds@ == lights_for(self.store.bearing_north) || self.unsampled()
        }
    }
}

/// The system at start-up is well formed, and nothing is ready.
pub proof fn lemma_init_wf(board: ConfiguredDevice)
    ensures
        Model::init(board).wf(),
        Model::init(board).agenda.high.len() == 0,
        Model::init(board).agenda.low.len() == 0,
{
    let empty = Agenda::empty();
    assert(orderly(empty));
    assert(!empty.pending(Task::UpdateBearing));
    lemma_spawn_after_orderly(empty, Task::UpdateBearing, UPDATE_BEARING_START);
    let first = empty.spawn_after(Task::UpdateBearing, UPDATE_BEARING_START);
    assert(!first.pending(Task::Orientate));
    lemma_spawn_after_orderly(first, Task::Orientate, ORIENTATE_START);
}

/// The agenda after the task that samples the sensor has run without a
/// fault: orderly, with the display task ready and everything else in
/// flight as before.
proof fn lemma_sampled(agenda: Agenda)
    requires
        orderly(agenda),
        !agenda.pending(Task::UpdateBearing),
        !agenda.pending(Task::UpdateDisplay),
    ensures
        orderly(agenda.spawn(Task::UpdateDisplay).spawn_after(Task::UpdateBearing, UPDATE_BEARING_PERIOD)),
        agenda.spawn(Task::UpdateDisplay).spawn_after(Task::UpdateBearing, UPDATE_BEARING_PERIOD).ready(
            Task::UpdateDisplay,
        ),
        agenda.spawn(Task::UpdateDisplay).spawn_after(Task::UpdateBearing, UPDATE_BEARING_PERIOD).high
            == agenda.high.push(Task::UpdateDisplay),
        agenda.spawn(Task::UpdateDisplay).spawn_after(
            Task::UpdateBearing,
            UPDATE_BEARING_PERIOD,
        ).timers.contains(
            Timer { due: agenda.tick_after(UPDATE_BEARING_PERIOD), task: Task::UpdateBearing },
        ),
        forall|other: Task|
            other != Task::UpdateBearing && other != Task::UpdateDisplay ==> (agenda.spawn(
                Task::UpdateDisplay,
            ).spawn_after(Task::UpdateBearing, UPDATE_BEARING_PERIOD).pending(other) <==> agenda.pending(
                other,
            )),
{
    lemma_spawn_orderly(agenda, Task::UpdateDisplay);
    lemma_enqueue(agenda, Task::UpdateDisplay);
    let spawned = agenda.spawn(Task::UpdateDisplay);
    lemma_spawn_after_orderly(spawned, Task::UpdateBearing, UPDATE_BEARING_PERIOD);
    lemma_spawn_after(spawned, Task::UpdateBearing, UPDATE_BEARING_PERIOD);
}

/// The agenda after the deciding task has passed on `command`: orderly,
/// with everything but the deciding task and the task it triggers in
/// flight as before.
proof fn lemma_passed_on(agenda: Agenda, command: Command)
    requires
        orderly(agenda),
        !agenda.pending(Task::Orientate),
        !agenda.pending(Task::EnableStepper),
        !agenda.pending(Task::DisableStepper),
    ensures
        orderly(agenda.spawn(Model::triggered_for(command)).spawn_after(Task::Orientate, ORIENTATE_PERIOD)),
        agenda.spawn(Model::triggered_for(command)).spawn_after(Task::Orientate, ORIENTATE_PERIOD).pending(
            Model::triggered_for(command),
        ),
        forall|other: Task|
            other != Task::Orientate && other != Model::triggered_for(command) ==> (agenda.spawn(
                Model::triggered_for(command),
            ).spawn_after(Task::Orientate, ORIENTATE_PERIOD).pending(other) <==> agenda.pending(other)),
{
    let triggered = Model::triggered_for(command);
    lemma_spawn_orderly(agenda, triggered);
    lemma_enqueue(agenda, triggered);
    let spawned = agenda.spawn(triggered);
    lemma_spawn_after_orderly(spawned, Task::Orientate, ORIENTATE_PERIOD);
}

/// A dispatch leaves a well-formed system well formed.
pub proof fn lemma_dispatch_wf(model: Model, heading: Angle)
    requires
        model.wf(),
    ensures
        model.dispatch(heading).wf(),
{
    let after = model.dispatch(heading);
    if model.next() is None {
    } else if model.resumes() {
        lemma_passed_on(model.agenda, model.decided->0);
        assert(after.store.frames =~= Seq::<Frame>::empty());
    } else {
        let task = model.agenda.next()->0;
        lemma_next_orderly(model.agenda);
        let agenda = model.agenda.after_next();
        let frames = model.store.frames;
        // Every task starts above the level of the system: a high-priority
        // task above the deciding task between its sections, a low-priority
        // task only while no task has started.
        if task.spec_priority() != HIGH {
            assert(model.agenda.high.len() == 0);
            assert(model.decided is None);
        }
        lemma_let_in(frames, Frame::fresh(task));
        lemma_let_in(frames, Frame { board: true, ..Frame::fresh(task) });
        if task == Task::UpdateBearing {
            lemma_sampled(agenda);
        }
    }
}

/// Every event leaves a well-formed system well formed.
pub proof fn lemma_step_wf(model: Model, event: Event)
    requires
        model.wf(),
    ensures
        model.step(event).wf(),
{
    match event {
        Event::Clock(now) => {
            lemma_advance_orderly(model.agenda, now);
        },
        Event::Dispatch(heading) => {
            lemma_dispatch_wf(model, heading);
        },
    }
}

/// Between two orderly agendas in which the display task is in flight
/// alike, it is ready alike: it never has a timer.
proof fn lemma_ready_display(before: Agenda, after: Agenda)
    requires
        orderly(before),
        orderly(after),
        before.pending(Task::UpdateDisplay) <==> after.pending(Task::UpdateDisplay),
    ensures
        before.ready(Task::UpdateDisplay) <==> after.ready(Task::UpdateDisplay),
{
    if before.delayed(Task::UpdateDisplay) {
        let k = choose|k: int|
            0 <= k < before.timers.len() && before.timers[k].task == Task::UpdateDisplay;
        assert(before.timers[k].task.periodic());
    }
    if after.delayed(Task::UpdateDisplay) {
        let k = choose|k: int| 0 <= k < after.timers.len() && after.timers[k].task == Task::UpdateDisplay;
        assert(after.timers[k].task.periodic());
    }
}

/// A change that leaves the bearing, the bearing in the display task's
/// hand, the ring and the display task's place in the agenda alone keeps
/// the display current.
proof fn lemma_quiet_keeps_display_current(before: Model, after: Model)
    requires
        orderly(before.agenda),
        orderly(after.agenda),
        before.display_current(),
        before.fault is None,
        before.agenda.pending(Task::UpdateDisplay) <==> after.agenda.pending(Task::UpdateDisplay),
        after.store.bearing_north == before.store.bearing_north,
        after.bearing_msg == before.bearing_msg,
        after.store.board.leds == before.store.board.leds,
    ensures
        after.display_current(),
{
    lemma_ready_display(before.agenda, after.agenda);
}

/// The task that samples the sensor keeps the display current: it leaves
/// the display task ready with the published bearing in hand.
proof fn lemma_sampling_keeps_display_current(popped: Model, heading: Angle)
    requires
        orderly(popped.agenda),
        !popped.agenda.pending(Task::UpdateBearing),
        !popped.agenda.pending(Task::UpdateDisplay),
    ensures
        popped.update_bearing(heading).display_current(),
{
    lemma_sampled(popped.agenda);
}

/// The display task makes the display current.
proof fn lemma_showing_keeps_display_current(popped: Model)
    requires
        orderly(popped.agenda),
        !popped.agenda.pending(Task::UpdateDisplay),
        popped.bearing_msg == popped.store.bearing_north,
    ensures
        popped.update_display().display_current(),
{
    let after = popped.update_display();
    if after.fault is None {
        assert(after.store.board.leds == Leds::showing(lights_for(popped.bearing_msg)));
        assert(after.store.board.leds@ =~= lights_for(popped.bearing_msg));
    }
}

/// Every dispatch keeps the display current.
pub proof fn lemma_dispatch_keeps_display_current(model: Model, heading: Angle)
    requires
        model.wf(),
        model.display_current(),
    ensures
        model.dispatch(heading).display_current(),
{
    let after = model.dispatch(heading);
    lemma_dispatch_wf(model, heading);
    if model.next() is None {
    } else if model.resumes() {
        lemma_passed_on(model.agenda, model.decided->0);
        lemma_quiet_keeps_display_current(model, after);
    } else {
        let task = model.agenda.next()->0;
        lemma_next_orderly(model.agenda);
        let popped = Model { agenda: model.agenda.after_next(), ..model };
        assert(after == popped.run(task, heading));
        match task {
            Task::UpdateBearing => {
                lemma_sampling_keeps_display_current(popped, heading);
            },
            Task::UpdateDisplay => {
                assert(model.agenda.pending(Task::UpdateDisplay));
                if model.agenda.delayed(Task::UpdateDisplay) {
                    let k = choose|k: int|
                        0 <= k < model.agenda.timers.len() && model.agenda.timers[k].task
                            == Task::UpdateDisplay;
                    assert(model.agenda.timers[k].task.periodic());
                }
                assert(model.agenda.ready(Task::UpdateDisplay));
                lemma_showing_keeps_display_current(popped);
            },
            _ => {
                if after.fault is None {
                    lemma_quiet_keeps_display_current(model, after);
                }
            },
        }
    }
}

/// Every event keeps the display current.
pub proof fn lemma_step_keeps_display_current(model: Model, event: Event)
    requires
        model.wf(),
        model.display_current(),
    ensures
        model.step(event).display_current(),
{
    match event {
        Event::Clock(now) => {
            lemma_advance_orderly(model.agenda, now);
            if model.fault is None {
                lemma_quiet_keeps_display_current(model, model.advance(now));
            }
        },
        Event::Dispatch(heading) => {
            lemma_dispatch_keeps_display_current(model, heading);
        },
    }
}

/// The display is a function of the samples alone. Whatever the clock does
/// and whenever tasks are dispatched, a system brought up with a dark ring
/// stays well formed, and while it runs its ring shows the sector of the
/// published bearing as soon as the display task has run. No order in
/// which the other tasks run changes what is shown.
pub proof fn lemma_display_follows_samples(board: ConfiguredDevice, events: Seq<Event>)
    requires
        board.leds@ == Set::<LedId>::empty(),
    ensures
        Model::init(board).replay(events).wf(),
        Model::init(board).replay(events).display_current(),
    decreases events.len(),
{
    let start = Model::init(board);
    lemma_init_wf(board);
    if events.len() == 0 {
        assert(!start.agenda.ready(Task::UpdateDisplay));
    } else {
        lemma_display_follows_samples(board, events.drop_last());
        let before = start.replay(events.drop_last());
        lemma_step_wf(before, events.last());
        lemma_step_keeps_display_current(before, events.last());
    }
}

/// When the task that samples the sensor is the next to run, it is the
/// only high-priority task that is ready.
proof fn lemma_sampler_runs_alone(agenda: Agenda)
    requires
        orderly(agenda),
        agenda.next() == Some(Task::UpdateBearing),
    ensures
        agenda.high =~= seq![Task::UpdateBearing],
        agenda.after_next().high =~= Seq::<Task>::empty(),
{
    assert(agenda.high.len() > 0) by {
        if agenda.high.len() == 0 {
            assert(agenda.low[0].spec_priority() == crate::task::LOW);
        }
    }
    if agenda.high.len() > 1 {
        let other = agenda.high[1];
        assert(other.spec_priority() == HIGH);
        assert(agenda.high[0].periodic());
        if other == Task::UpdateDisplay {
            assert(!agenda.high[1].periodic());
        }
    }
}

/// One sample, shown at once: when the task that samples the sensor is the
/// next to run, the dispatch runs it and leaves the display task next,
/// whatever else is ready or due or stands preempted.
pub proof fn lemma_sample_is_published(model: Model, heading: Angle)
    requires
        model.wf(),
        model.next() == Some(Task::UpdateBearing),
        model.store.board.compass is Some,
    ensures
        model.dispatch(heading).wf(),
        model.dispatch(heading).fault is None,
        model.dispatch(heading).next() == Some(Task::UpdateDisplay),
        model.dispatch(heading).store.bearing_north == heading.spec_neg(),
        model.dispatch(heading).bearing_msg == heading.spec_neg(),
        model.dispatch(heading).store.board == model.store.board,
        model.dispatch(heading).agenda.high == seq![Task::UpdateDisplay],
        model.dispatch(heading).agenda.timers.contains(
            Timer { due: model.agenda.tick_after(UPDATE_BEARING_PERIOD), task: Task::UpdateBearing },
        ),
{
    lemma_dispatch_wf(model, heading);
    assert(!model.resumes());
    lemma_sampler_runs_alone(model.agenda);
    lemma_next_orderly(model.agenda);
    let agenda = model.agenda.after_next();
    lemma_sampled(agenda);
    let after = model.dispatch(heading);
    assert(after.agenda.high =~= seq![Task::UpdateDisplay]);
}

/// The dispatch that runs the display task leaves the ring showing the
/// sector of the bearing that the task was handed, or dark with a fault
/// for a bearing outside the half-open circle from -180 to 180 degrees.
pub proof fn lemma_published_is_shown(model: Model, later: Angle)
    requires
        model.wf(),
        model.next() == Some(Task::UpdateDisplay),
    ensures
        model.dispatch(later).store.board.leds@ == lights_for(model.bearing_msg),
        model.dispatch(later).fault == (if model.bearing_msg.spec_in_range() {
            None
        } else {
            Some(Error::OutOfRange)
        }),
        model.dispatch(later).agenda == model.agenda.after_next(),
{
    assert(!model.resumes());
    let shown = model.dispatch(later);
    assert(shown.store.board.leds == Leds::showing(lights_for(model.bearing_msg)));
    assert(shown.store.board.leds@ =~= lights_for(model.bearing_msg));
}

/// A sample is shown by the two dispatches that follow it: the ring shows
/// the sector of the mirrored heading, or is dark with a fault for a
/// mirrored heading outside the half-open circle from -180 to 180 degrees.
pub proof fn lemma_sample_is_shown(model: Model, heading: Angle, later: Angle)
    requires
        model.wf(),
        model.next() == Some(Task::UpdateBearing),
        model.store.board.compass is Some,
    ensures
        model.dispatch(heading).dispatch(later).store.board.leds@ == lights_for(heading.spec_neg()),
        model.dispatch(heading).dispatch(later).fault == (if heading.spec_neg().spec_in_range() {
            None
        } else {
            Some(Error::OutOfRange)
        }),
{
    lemma_sample_is_published(model, heading);
    lemma_published_is_shown(model.dispatch(heading), later);
}

impl Model {
    /// Whether a sample is due once the clock shows `tick`: the task that
    /// samples the sensor is then the next to run.
    #[verifier::opaque]
    pub open spec fn sample_due(self, tick: u64) -> bool {
        self.advance(tick).next() == Some(Task::UpdateBearing)
    }

    /// The state after one cycle: the clock moves to `tick`, and two
    /// dispatches follow, both while the sensor shows `heading`.
    #[verifier::opaque]
    pub open spec fn cycle(self, tick: u64, heading: Angle) -> Model {
        self.advance(tick).dispatch(heading).dispatch(heading)
    }

    /// The state after one cycle for each of `headings`, the earliest
    /// first, at the ticks of `ticks`.
    pub open spec fn cycles(self, ticks: Seq<u64>, headings: Seq<Angle>) -> Model
        decreases headings.len(),
    {
        if headings.len() == 0 {
            self
        } else {
            self.cycles(ticks.drop_last(), headings.drop_last()).cycle(ticks.last(), headings.last())
        }
    }
}

/// A cycle at a tick at which a sample is due takes the sample and shows
/// it: the ring shows the sector of the mirrored heading.
pub proof fn lemma_cycle(model: Model, tick: u64, heading: Angle)
    requires
        model.wf(),
        model.fault is None,
        model.store.board.compass is Some,
        model.sample_due(tick),
        heading.spec_neg().spec_in_range(),
    ensures
        model.cycle(tick, heading).wf(),
        model.cycle(tick, heading).fault is None,
        model.cycle(tick, heading).store.board.compass is Some,
        model.cycle(tick, heading).store.bearing_north == heading.spec_neg(),
        model.cycle(tick, heading).store.board.leds@ == lights_for(heading.spec_neg()),
        model.cycle(tick, heading).agenda.now == model.advance(tick).agenda.now,
{
    reveal(Model::sample_due);
    reveal(Model::cycle);
    let due = model.advance(tick);
    lemma_step_wf(model, Event::Clock(tick));
    lemma_sample_is_published(due, heading);
    let sampled = due.dispatch(heading);
    lemma_published_is_shown(sampled, heading);
    lemma_dispatch_wf(sampled, heading);
    let shown = sampled.dispatch(heading);
    assert(shown.store.board.compass == sampled.store.board.compass);
    assert(shown.store.bearing_north == sampled.store.bearing_north);
}

/// A timer of the sampling task that is due, with no high-priority task
/// ready, makes the sampling task the next to run once the clock has moved.
proof fn lemma_due_sample_is_next(agenda: Agenda, tick: u64, timer: Timer)
    requires
        orderly(agenda),
        agenda.high.len() == 0,
        agenda.timers.contains(timer),
        timer.task == Task::UpdateBearing,
        timer.due <= tick,
    ensures
        agenda.advance(tick).high.len() > 0,
        agenda.advance(tick).next() == Some(Task::UpdateBearing),
{
    let i = choose|i: int| 0 <= i < agenda.timers.len() && agenda.timers[i] == timer;
    lemma_advance_orderly(agenda, tick);
    lemma_advance_due(agenda, tick, i);
    let after = agenda.advance(tick);
    if after.low.contains(Task::UpdateBearing) {
        let k = choose|k: int| 0 <= k < after.low.len() && after.low[k] == Task::UpdateBearing;
        assert(after.low[k].spec_priority() == crate::task::LOW);
    }
    assert(after.high.contains(Task::UpdateBearing));
    assert(after.high[0].periodic());
    assert(after.high[0].spec_priority() == HIGH);
}

/// The first sample is due one second after start-up.
pub proof fn lemma_first_sample_due(board: ConfiguredDevice, tick: u64)
    requires
        tick >= UPDATE_BEARING_START,
    ensures
        Model::init(board).sample_due(tick),
{
    reveal(Model::sample_due);
    let empty = Agenda::empty();
    assert(orderly(empty));
    assert(!empty.pending(Task::UpdateBearing));
    lemma_spawn_after_orderly(empty, Task::UpdateBearing, UPDATE_BEARING_START);
    lemma_spawn_after(empty, Task::UpdateBearing, UPDATE_BEARING_START);
    let first = empty.spawn_after(Task::UpdateBearing, UPDATE_BEARING_START);
    assert(!first.pending(Task::Orientate));
    lemma_spawn_after_orderly(first, Task::Orientate, ORIENTATE_START);
    lemma_spawn_after(first, Task::Orientate, ORIENTATE_START);
    let start = Model::init(board);
    let timer = Timer { due: UPDATE_BEARING_START, task: Task::UpdateBearing };
    assert(start.agenda.timers.contains(timer));
    lemma_due_sample_is_next(start.agenda, tick, timer);
}

/// Samples fall due at fixed intervals: one period after the clock showed
/// the tick of a cycle, the next sample is due.
pub proof fn lemma_next_sample_due(model: Model, tick: u64, heading: Angle, later: u64)
    requires
        model.wf(),
        model.fault is None,
        model.store.board.compass is Some,
        model.sample_due(tick),
        heading.spec_neg().spec_in_range(),
        later >= model.advance(tick).agenda.now + UPDATE_BEARING_PERIOD,
    ensures
        model.cycle(tick, heading).sample_due(later),
{
    reveal(Model::sample_due);
    reveal(Model::cycle);
    let due = model.advance(tick);
    lemma_step_wf(model, Event::Clock(tick));
    lemma_sample_is_published(due, heading);
    let sampled = due.dispatch(heading);
    lemma_published_is_shown(sampled, heading);
    lemma_dispatch_wf(sampled, heading);
    let shown = sampled.dispatch(heading);
    let timer = Timer { due: due.agenda.tick_after(UPDATE_BEARING_PERIOD), task: Task::UpdateBearing };
    assert(shown.agenda.timers.contains(timer));
    assert(shown.agenda.high =~= Seq::<Task>::empty());
    lemma_due_sample_is_next(shown.agenda, later, timer);
}

/// After any number of cycles, each at a tick at which a sample is due, the
/// ring shows the sector of the last mirrored heading: the display is that
/// function of the sequence of samples, whatever else is ready, due or
/// preempted along the way.
pub proof fn lemma_display_after_cycles(model: Model, ticks: Seq<u64>, headings: Seq<Angle>)
    requires
        model.wf(),
        model.fault is None,
        model.store.board.compass is Some,
        ticks.len() == headings.len(),
        forall|k: int| 0 <= k < headings.len() ==> (#[trigger] headings[k]).spec_neg().spec_in_range(),
        forall|k: int|
            0 <= k < headings.len() ==> model.cycles(ticks.take(k), headings.take(k)).sample_due(
                #[trigger] ticks[k],
            ),
    ensures
        model.cycles(ticks, headings).wf(),
        model.cycles(ticks, headings).fault is None,
        model.cycles(ticks, headings).store.board.compass is Some,
        headings.len() > 0 ==> model.cycles(ticks, headings).store.board.leds@ == lights_for(
            headings.last().spec_neg(),
        ),
    decreases headings.len(),
{
    if headings.len() > 0 {
        let n = headings.len() - 1;
        let earlier_ticks = ticks.drop_last();
        let earlier = headings.drop_last();
        assert forall|k: int| 0 <= k < earlier.len() implies model.cycles(
            earlier_ticks.take(k),
            earlier.take(k),
        ).sample_due(#[trigger] earlier_ticks[k]) by {
            assert(earlier_ticks.take(k) =~= ticks.take(k));
            assert(earlier.take(k) =~= headings.take(k));
            assert(model.cycles(ticks.take(k), headings.take(k)).sample_due(ticks[k]));
        }
        assert forall|k: int| 0 <= k < earlier.len() implies (#[trigger] earlier[k]).spec_neg().spec_in_range() by {
            assert(earlier[k] == headings[k]);
        }
        lemma_display_after_cycles(model, earlier_ticks, earlier);
        let before = model.cycles(earlier_ticks, earlier);
        assert(ticks.take(n) =~= earlier_ticks);
        assert(headings.take(n) =~= earlier);
        assert(before.sample_due(ticks[n]));
        lemma_cycle(before, ticks[n], headings[n]);
    }
}

/// Samples at fixed intervals: the ticks start one second after start-up
/// or later, and each lies a period or more behind the one before.
pub open spec fn at_intervals(ticks: Seq<u64>) -> bool {
    &&& ticks.len() > 0 ==> ticks[0] >= UPDATE_BEARING_START
    &&& forall|k: int| 0 < k < ticks.len() ==> (#[trigger] ticks[k]) >= ticks[k - 1] + UPDATE_BEARING_PERIOD
}

/// The display is a function of the sequence of samples. A system with a
/// compass, brought up and then run for one cycle at each of a sequence of
/// ticks at fixed intervals, keeps running if every mirrored heading lies
/// in the half-open circle from -180 to 180 degrees; after the last cycle
/// its ring shows the sector of the last mirrored heading, and the next
/// sample is due a period later.
pub proof fn lemma_display_at_fixed_intervals(
    board: ConfiguredDevice,
    ticks: Seq<u64>,
    headings: Seq<Angle>,
    later: u64,
)
    requires
        board.compass is Some,
        ticks.len() == headings.len(),
        at_intervals(ticks),
        forall|k: int| 0 <= k < headings.len() ==> (#[trigger] headings[k]).spec_neg().spec_in_range(),
        later >= (if ticks.len() == 0 {
            UPDATE_BEARING_START as int
        } else {
            ticks.last() + UPDATE_BEARING_PERIOD
        }),
    ensures
        Model::init(board).cycles(ticks, headings).wf(),
        Model::init(board).cycles(ticks, headings).fault is None,
        Model::init(board).cycles(ticks, headings).store.board.compass is Some,
        headings.len() > 0 ==> Model::init(board).cycles(ticks, headings).store.board.leds@
            == lights_for(headings.last().spec_neg()),
        headings.len() > 0 ==> Model::init(board).cycles(ticks, headings).agenda.now == ticks.last(),
        Model::init(board).cycles(ticks, headings).sample_due(later),
    decreases headings.len(),
{
    let start = Model::init(board);
    if headings.len() == 0 {
        lemma_init_wf(board);
        lemma_first_sample_due(board, later);
    } else {
        let n = headings.len() - 1;
        let earlier_ticks = ticks.drop_last();
        let earlier = headings.drop_last();
        assert(at_intervals(earlier_ticks)) by {
            assert forall|k: int| 0 < k < earlier_ticks.len() implies (#[trigger] earlier_ticks[k])
                >= earlier_ticks[k - 1] + UPDATE_BEARING_PERIOD by {
                assert(ticks[k] >= ticks[k - 1] + UPDATE_BEARING_PERIOD);
            }
        }
        assert forall|k: int| 0 <= k < earlier.len() implies (#[trigger] earlier[k]).spec_neg().spec_in_range() by {
            assert(earlier[k] == headings[k]);
        }
        if n > 0 {
            assert(ticks[n] >= ticks[n - 1] + UPDATE_BEARING_PERIOD);
            assert(earlier_ticks.last() == ticks[n - 1]);
        }
        lemma_display_at_fixed_intervals(board, earlier_ticks, earlier, ticks[n]);
        let before = start.cycles(earlier_ticks, earlier);
        lemma_cycle(before, ticks[n], headings[n]);
        assert(before.advance(ticks[n]).agenda.now == ticks[n]);
        lemma_next_sample_due(before, ticks[n], headings[n], later);
    }
}

/// A ready high-priority task preempts the deciding task between its
/// sections, and no low-priority task starts before the deciding task has
/// completed.
pub proof fn lemma_high_preempts(model: Model)
    requires
        model.wf(),
        model.fault is None,
        model.decided is Some,
    ensures
        model.agenda.high.len() > 0 ==> model.next() == Some(model.agenda.high.first())
            && model.next()->0.spec_priority() == HIGH && stack_admits(
            model.store.frames,
            model.next()->0,
        ),
        model.agenda.high.len() == 0 ==> model.next() == Some(Task::Orientate),
        forall|task: Task| task.spec_priority() != HIGH ==> !stack_admits(model.store.frames, task),
{
    if model.agenda.high.len() > 0 {
        assert(model.agenda.high[0].spec_priority() == HIGH);
    }
    assert(model.store.frames.last() == Frame::fresh(Task::Orientate));
}

/// A periodic task that completes has set its own timer one period ahead.
/// The deciding task completes with its second section.
pub proof fn lemma_periodic_task_reschedules(model: Model, heading: Angle)
    requires
        model.wf(),
        model.next() matches Some(task) && task.periodic(),
        model.next() == Some(Task::Orientate) ==> model.decided is Some,
        model.dispatch(heading).fault is None,
    ensures
        exists|i: int|
            0 <= i < model.dispatch(heading).agenda.timers.len() && (
            #[trigger] model.dispatch(heading).agenda.timers[i]) == (Timer {
                due: model.agenda.tick_after(model.next()->0.period()->0),
                task: model.next()->0,
            }),
{
    let task = model.next()->0;
    let period = task.period()->0;
    let after = model.dispatch(heading);
    let spawned = if model.resumes() {
        lemma_passed_on(model.agenda, model.decided->0);
        lemma_spawn_orderly(model.agenda, Model::triggered_for(model.decided->0));
        model.agenda.spawn(Model::triggered_for(model.decided->0))
    } else {
        lemma_next_orderly(model.agenda);
        let agenda = model.agenda.after_next();
        assert(task == Task::UpdateBearing) by {
            if model.agenda.high.len() == 0 {
                assert(model.decided is None);
            }
        }
        lemma_sampled(agenda);
        lemma_spawn_orderly(agenda, Task::UpdateDisplay);
        agenda.spawn(Task::UpdateDisplay)
    };
    assert(!spawned.pending(task));
    lemma_spawn_after(spawned, task, period);
    assert(after.agenda == spawned.spawn_after(task, period));
    let timer = Timer { due: model.agenda.tick_after(period), task };
    assert(after.agenda.timers.contains(timer));
    let i = choose|i: int| 0 <= i < after.agenda.timers.len() && after.agenda.timers[i] == timer;
    assert(after.agenda.timers[i] == timer);
}

/// A triggered task comes into flight only when the task that triggers it
/// runs.
pub proof fn lemma_triggered_by_its_trigger(model: Model, event: Event, task: Task)
    requires
        model.wf(),
        !task.periodic(),
        !model.agenda.pending(task),
        model.step(event).agenda.pending(task),
    ensures
        event is Dispatch,
        model.next() == task.trigger(),
{
    match event {
        Event::Clock(now) => {
            lemma_advance_orderly(model.agenda, now);
        },
        Event::Dispatch(heading) => {
            if model.next() is None {
            } else if model.resumes() {
                lemma_passed_on(model.agenda, model.decided->0);
            } else {
                let running = model.agenda.next()->0;
                lemma_next_orderly(model.agenda);
                let agenda = model.agenda.after_next();
                assert(!agenda.pending(task));
                if running == Task::UpdateBearing {
                    lemma_sampled(agenda);
                }
            }
        },
    }
}

/// A fault is final: the task that met it stays inside its critical section
/// on the device, whose ceiling lets no task in; no dispatch runs a task any
/// more, and nothing but the clock changes.
pub proof fn lemma_fault_is_final(model: Model, event: Event)
    requires
        model.wf(),
        model.fault is Some,
    ensures
        forall|task: Task| !stack_admits(model.store.frames, task),
        model.next() is None,
        model.step(event).fault == model.fault,
        model.step(event).store == model.store,
        model.step(event).decided == model.decided,
        event is Dispatch ==> model.step(event) == model,
{
    lemma_level_covers(model.store.frames.last());
    assert(model.store.frames.last().holds(Resource::Board));
}

} // verus!
