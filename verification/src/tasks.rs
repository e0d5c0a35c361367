//! The runtime: the five tasks, dispatched in order of priority on the
//! shared orientation state.
//!
//! A high-priority task samples the sensor every 100 ms and triggers the
//! display; a low-priority task decides every 250 ms what the actuator
//! should do and triggers the task that tells it. A fault stops the
//! faulting task inside its critical section on the device for good, and
//! with it all scheduling.
//!
//! A task can be preempted only where it holds no lock, since every lock it
//! takes first has the ceiling of the highest priority. The high-priority
//! tasks are never preempted. The two tasks that command the actuator hold
//! the device from their first step to their last, so to them being
//! preempted is the same as running later. The deciding task holds no lock
//! once its decision is taken: there it gives way, and a dispatch runs it in
//! two sections, the decision and the passing on of the decision, with
//! every high-priority task that is ready in between.
use vstd::prelude::*;
use crate::angle::Angle;
use crate::cadence::{millis, secs, ORIENTATE_PERIOD, ORIENTATE_START, UPDATE_BEARING_PERIOD,
    UPDATE_BEARING_START};
use crate::ceiling::{Frame, stack_wf};
use crate::control::{Command, decide, spec_decide};
use crate::order::{lemma_advance_orderly, lemma_next_orderly, lemma_spawn_after_orderly,
    lemma_spawn_orderly, orderly};
use crate::scheduler::{Agenda, Scheduler};
use crate::shared::{Shared, Store};
use crate::stepper::{CircularDirection, Stepper};
use crate::task::{Resource, Task, HIGH, LOW};
use crate::{ConfiguredDevice, Error, display_bearing};

verus! {

/// The state of the system: the view of a `Runtime`.
pub struct Model {
    pub agenda: Agenda,
    pub store: Store,
    /// The bearing handed to the display task when it was last triggered.
    pub bearing_msg: Angle,
    /// The direction handed to the task that starts the actuator when it
    /// was last triggered.
    pub direction_msg: CircularDirection,
    /// The decision that the deciding task has taken and not yet passed
    /// on: the task stands between its two sections.
    pub decided: Option<Command>,
    /// The fault that stopped the system, if one did.
    pub fault: Option<Error>,
}

impl Model {
    /// The deciding task stands between its two sections: it is the only
    /// task that has started, it holds no lock, and neither it nor a task
    /// that it triggers is in flight a second time.
    pub open spec fn suspended(self) -> bool {
        &&& self.store.frames =~= seq![Frame::fresh(Task::Orientate)]
        &&& !self.agenda.pending(Task::Orientate)
        &&& !self.agenda.pending(Task::EnableStepper)
        &&& !self.agenda.pending(Task::DisableStepper)
    }

    /// Between two dispatches no task has started but the deciding task
    /// between its sections, unless a fault has stopped a task inside its
    /// critical section on the device.
    pub open spec fn wf(self) -> bool {
        &&& orderly(self.agenda)
        &&& stack_wf(self.store.frames)
        &&& self.fault is None ==> if self.decided is Some {
            self.suspended()
        } else {
            self.store.frames.len() == 0
        }
        &&& self.fault is Some ==> self.store.frames.len() > 0 && self.store.frames.last().board
    }

    /// The state at start-up: the first sample and the first decision are
    /// set, nothing is ready, the bearing is zero and the actuator at
    /// rest.
    pub open spec fn init(board: ConfiguredDevice) -> Model {
        Model {
            agenda: Agenda::empty().spawn_after(Task::UpdateBearing, UPDATE_BEARING_START).spawn_after(
                Task::Orientate,
                ORIENTATE_START,
            ),
            store: Store {
                board,
                bearing_north: Angle { bits: 0 },
                stepper_enabled: false,
                frames: Seq::empty(),
            },
            bearing_msg: Angle { bits: 0 },
            direction_msg: CircularDirection::CW,
            decided: None,
            fault: None,
        }
    }

    /// The state after `task` met `fault`: the task stays inside its
    /// critical section on the device, and nothing runs any more.
    pub open spec fn stuck(self, task: Task, fault: Error) -> Model {
        Model {
            store: Store {
                frames: self.store.frames.push(Frame { board: true, ..Frame::fresh(task) }),
                ..self.store
            },
            fault: Some(fault),
            ..self
        }
    }

    /// The effect of the task that samples the sensor, for a field vector
    /// at angle `heading`: the mirrored angle is published and handed to
    /// the display task, which is triggered, and the next sample is set.
    /// Without a compass the task meets a fault.
    pub open spec fn update_bearing(self, heading: Angle) -> Model {
        match self.store.board.compass {
            None => self.stuck(Task::UpdateBearing, Error::MissingCapability),
            Some(_) => Model {
                agenda: self.agenda.spawn(Task::UpdateDisplay).spawn_after(
                    Task::UpdateBearing,
                    UPDATE_BEARING_PERIOD,
                ),
                store: Store { bearing_north: heading.spec_neg(), ..self.store },
                bearing_msg: heading.spec_neg(),
                ..self
            },
        }
    }

    /// The effect of the display task: the ring shows the bearing that the
    /// task was handed. For a bearing outside the half-open circle from
    /// -180 to 180 degrees the ring is dark and the task meets a fault.
    pub open spec fn update_display(self) -> Model {
        let shown = Model {
            store: Store { board: self.store.board.showing(self.bearing_msg), ..self.store },
            ..self
        };
        if self.bearing_msg.spec_in_range() {
            shown
        } else {
            shown.stuck(Task::UpdateDisplay, Error::OutOfRange)
        }
    }

    /// The first section of the deciding task: it starts, reads the
    /// bearing inside its critical section and takes its decision.
    pub open spec fn take_decision(self) -> Model {
        Model {
            store: Store { frames: self.store.frames.push(Frame::fresh(Task::Orientate)), ..self.store },
            decided: Some(spec_decide(self.store.bearing_north)),
            ..self
        }
    }

    /// The task that the deciding task triggers to pass on `command`.
    pub open spec fn triggered_for(command: Command) -> Task {
        match command {
            Command::Hold => Task::DisableStepper,
            Command::Turn(_) => Task::EnableStepper,
        }
    }

    /// The second section of the deciding task: the task that stops the
    /// actuator is triggered, or the one that starts it, with its
    /// direction; the next decision is set, and the task completes.
    pub open spec fn pass_on(self, command: Command) -> Model {
        Model {
            agenda: self.agenda.spawn(Model::triggered_for(command)).spawn_after(
                Task::Orientate,
                ORIENTATE_PERIOD,
            ),
            store: Store { frames: self.store.frames.drop_last(), ..self.store },
            direction_msg: match command {
                Command::Hold => self.direction_msg,
                Command::Turn(direction) => direction,
            },
            decided: None,
            ..self
        }
    }

    /// The effect of the next section of the deciding task.
    pub open spec fn orientate(self) -> Model {
        match self.decided {
            None => self.take_decision(),
            Some(command) => self.pass_on(command),
        }
    }

    /// The effect of the task that starts the actuator: the direction it
    /// was handed is set, the pulses run, and the flag records it. Without
    /// a stepper the task meets a fault.
    pub open spec fn enable_stepper(self) -> Model {
        match self.store.board.stepper {
            None => self.stuck(Task::EnableStepper, Error::MissingCapability),
            Some(stepper) => Model {
                store: Store {
                    board: ConfiguredDevice {
                        stepper: Some(
                            Stepper {
                                pin_direction: self.direction_msg == CircularDirection::CW,
                                pulsing: true,
                                ..stepper
                            },
                        ),
                        ..self.store.board
                    },
                    stepper_enabled: true,
                    ..self.store
                },
                ..self
            },
        }
    }

    /// The effect of the task that stops the actuator: the pulses stop,
    /// and the flag records it. Without a stepper the task meets a fault.
    pub open spec fn disable_stepper(self) -> Model {
        match self.store.board.stepper {
            None => self.stuck(Task::DisableStepper, Error::MissingCapability),
            Some(stepper) => Model {
                store: Store {
                    board: ConfiguredDevice {
                        stepper: Some(Stepper { pulsing: false, ..stepper }),
                        ..self.store.board
                    },
                    stepper_enabled: false,
                    ..self.store
                },
                ..self
            },
        }
    }

    /// The effect of `task`, or of its next section.
    pub open spec fn run(self, task: Task, heading: Angle) -> Model {
        match task {
            Task::UpdateBearing => self.update_bearing(heading),
            Task::UpdateDisplay => self.update_display(),
            Task::Orientate => self.orientate(),
            Task::EnableStepper => self.enable_stepper(),
            Task::DisableStepper => self.disable_stepper(),
        }
    }

    /// Whether the next dispatch runs the second section of the deciding
    /// task: the task stands between its sections, and no high-priority
    /// task is ready to preempt it.
    pub open spec fn resumes(self) -> bool {
        self.fault is None && self.decided is Some && self.agenda.high.len() == 0
    }

    /// The task that a dispatch would run: a ready high-priority task
    /// first, then the deciding task if it stands between its sections,
    /// then a ready low-priority task; none once a fault has stopped the
    /// system.
    pub open spec fn next(self) -> Option<Task> {
        if self.fault is Some {
            None
        } else if self.resumes() {
            Some(Task::Orientate)
        } else {
            self.agenda.next()
        }
    }

    /// The state after one dispatch: the deciding task has run its second
    /// section, or the next task has left its queue and run, to completion
    /// or, if it is the deciding task, to the end of its first section.
    /// `heading` is the angle of the field vector that the sensor shows at
    /// this moment.
    pub open spec fn dispatch(self, heading: Angle) -> Model {
        match self.next() {
            None => self,
            Some(task) => if self.resumes() {
                self.orientate()
            } else {
                Model { agenda: self.agenda.after_next(), ..self }.run(task, heading)
            },
        }
    }

    /// The state once the clock shows `now`.
    pub open spec fn advance(self, now: u64) -> Model {
        Model { agenda: self.agenda.advance(now), ..self }
    }

    /// The state after one half-period of the fault signal.
    pub open spec fn flash(self, half_period: u32) -> Model {
        if self.fault is Some {
            Model {
                store: Store {
                    board: ConfiguredDevice {
                        leds: crate::leds::Leds::showing(
                            if half_period % 2 == 0 {
                                self.store.board.leds@.insert(crate::leds::LedId::Led3)
                            } else {
                                self.store.board.leds@.remove(crate::leds::LedId::Led3)
                            },
                        ),
                        ..self.store.board
                    },
                    ..self.store
                },
                ..self
            }
        } else {
            self
        }
    }
}

/// The runtime. Its view is a `Model`.
#[derive(Debug)]
pub struct Runtime {
    sched: Scheduler,
    shared: Shared,
    bearing_msg: Angle,
    direction_msg: CircularDirection,
    decided: Option<Command>,
    fault: Option<Error>,
}

impl View for Runtime {
    type V = Model;

    closed spec fn view(&self) -> Model {
        Model {
            agenda: self.sched@,
            store: self.shared@,
            bearing_msg: self.bearing_msg,
            direction_msg: self.direction_msg,
            decided: self.decided,
            fault: self.fault,
        }
    }
}

impl Runtime {
    /// The current tick.
    pub fn now(&self) -> (now: u64)
        ensures
            now == self@.agenda.now,
    {
        self.sched.now()
    }

    /// The fault that stopped the system, if one did.
    pub fn fault(&self) -> (fault: Option<Error>)
        ensures
            fault == self@.fault,
    {
        self.fault
    }

    /// The device as last commanded: what the platform adapter copies to
    /// the pins.
    pub fn board(&self) -> (board: &ConfiguredDevice)
        ensures
            *board == self@.store.board,
    {
        self.shared.board()
    }

    /// The bearing last published, as an observer between two dispatches
    /// sees it.
    pub fn bearing_north(&self) -> (bearing: Angle)
        ensures
            bearing == self@.store.bearing_north,
    {
        self.shared.observe().0
    }

    /// Whether the actuator was last told to run, as an observer between
    /// two dispatches sees it.
    pub fn stepper_enabled(&self) -> (enabled: bool)
        ensures
            enabled == self@.store.stepper_enabled,
    {
        self.shared.observe().1
    }

    /// Whether the next dispatch runs the second section of the deciding
    /// task.
    fn resumes(&self) -> (r: bool)
        requires
            self@.wf(),
        ensures
            r == self@.resumes(),
    {
        if self.fault.is_some() || self.decided.is_none() {
            return false;
        }
        match self.sched.peek() {
            Some(task) => task.priority() != HIGH,
            None => true,
        }
    }

    /// The task that the next dispatch runs: none while nothing is ready,
    /// and none once a fault has stopped the system.
    pub fn peek(&self) -> (task: Option<Task>)
        requires
            self@.wf(),
        ensures
            task == self@.next(),
    {
        if self.fault.is_some() {
            None
        } else if self.resumes() {
            Some(Task::Orientate)
        } else {
            self.sched.peek()
        }
    }

    /// Moves the clock to `now`, unless it is there or beyond already; the
    /// tasks whose timers are due become ready, the earliest first.
    pub fn advance(&mut self, now: u64)
        requires
            old(self)@.wf(),
        ensures
            final(self)@.wf(),
            final(self)@ == old(self)@.advance(now),
    {
        proof {
            lemma_advance_orderly(self@.agenda, now);
        }
        self.sched.advance(now);
    }

    /// Runs the task that is next: a ready high-priority task first, then
    /// the deciding task if it stands between its sections, then a ready
    /// low-priority task; within one priority the task that became ready
    /// first. The task runs to completion, the deciding task to the end of
    /// its section. Returns the task that ran. `heading` is the angle of
    /// the field vector that the sensor shows at this moment; only the
    /// task that samples the sensor reads it.
    pub fn dispatch(&mut self, heading: Angle) -> (ran: Option<Task>)
        requires
            old(self)@.wf(),
        ensures
            final(self)@.wf(),
            ran == old(self)@.next(),
            final(self)@ == old(self)@.dispatch(heading),
    {
        if self.fault.is_some() {
            return None;
        }
        if self.resumes() {
            orientate(self);
            return Some(Task::Orientate);
        }
        proof {
            if self@.agenda.next() is Some {
                lemma_next_orderly(self@.agenda);
            }
        }
        match self.sched.next() {
            None => None,
            Some(task) => {
                match task {
                    Task::UpdateBearing => update_bearing(self, heading),
                    Task::UpdateDisplay => update_display(self),
                    Task::Orientate => orientate(self),
                    Task::EnableStepper => enable_stepper(self),
                    Task::DisableStepper => disable_stepper(self),
                }
                Some(task)
            },
        }
    }

    /// One half-period of the fault signal, once a fault has stopped the
    /// system: the north light is lit in the even half-periods and dark
    /// in the odd ones. Returns the clock cycles to spin before the next
    /// half-period, or `None`, with nothing changed, while the system
    /// runs.
    pub fn flash_error(&mut self, half_period: u32) -> (cycles: Option<u32>)
        requires
            old(self)@.wf(),
        ensures
            final(self)@.wf(),
            final(self)@ == old(self)@.flash(half_period),
            cycles == (if old(self)@.fault is Some {
                Some(old(self)@.store.board.spec_delay(crate::FLASH_HALF_PERIOD_MS) as u32)
            } else {
                None
            }),
    {
        if self.fault.is_none() {
            return None;
        }
        let board = self.shared.board_mut();
        let cycles = board.flash_error(half_period);
        proof {
            crate::leds::lemma_ring_shows_its_view(self@.store.board.leds);
        }
        Some(cycles)
    }
}

/// Brings the system up on `board`: the first sample of the sensor is set
/// one second from now and the first decision about the actuator three
/// seconds from now.
pub fn init(board: ConfiguredDevice) -> (cx: Runtime)
    ensures
        cx@ == Model::init(board),
        cx@.wf(),
{
    let mut sched = Scheduler::new();
    proof {
        lemma_spawn_after_orderly(sched@, Task::UpdateBearing, UPDATE_BEARING_START);
    }
    // Start update cycle for bearing
    let first = sched.spawn_after(Task::UpdateBearing, secs(1));
    assert(first is Ok);
    proof {
        lemma_spawn_after_orderly(sched@, Task::Orientate, ORIENTATE_START);
    }
    // Start orienting the device after a bit of a delay
    let second = sched.spawn_after(Task::Orientate, secs(3));
    assert(second is Ok);
    Runtime {
        sched,
        shared: Shared::new(board),
        bearing_msg: Angle::from_bits(0),
        direction_msg: CircularDirection::CW,
        decided: None,
        fault: None,
    }
}

/// What the processor does between two dispatches: it sleeps until there
/// is work. Returns the tick to sleep until: the current tick while a task
/// is ready or stands between its sections, else the tick at which the
/// next timer fires. `None` means that nothing will wake the system by
/// itself: no timer is set, or a fault has stopped the system.
pub fn idle(cx: &Runtime) -> (wake: Option<u64>)
    ensures
        wake == (if cx@.fault is Some {
            None
        } else if cx@.decided is Some || cx@.agenda.next() is Some {
            Some(cx@.agenda.now)
        } else {
            cx@.agenda.next_due()
        }),
{
    if cx.fault.is_some() {
        None
    } else if cx.decided.is_some() || cx.sched.peek().is_some() {
        Some(cx.sched.now())
    } else {
        cx.sched.next_due()
    }
}

/// Whether `task` may run now. The system is well formed and not stopped.
/// Unless `task` is the deciding task between its sections, no instance of
/// it is in flight; a low-priority task starts only while the deciding task
/// does not stand between its sections; and a periodic task finds the tasks
/// that it triggers not in flight.
pub open spec fn may_run(model: Model, task: Task) -> bool {
    &&& model.wf()
    &&& model.fault is None
    &&& !(task == Task::Orientate && model.decided is Some) ==> {
        &&& !model.agenda.pending(task)
        &&& task.spec_priority() == LOW ==> model.decided is None
        &&& task.periodic() ==> forall|other: Task|
            !other.periodic() && other.spec_priority() == task.spec_priority()
                ==> !model.agenda.pending(other)
    }
}

/// The task that orients the device by rotating the stepper: its next
/// section. The first section takes the decision, the second passes it on
/// and sets the next decision.
pub fn orientate(cx: &mut Runtime)
    requires
        may_run(old(cx)@, Task::Orientate),
    ensures
        final(cx)@.wf(),
        final(cx)@ == old(cx)@.orientate(),
{
    match cx.decided {
        None => {
            let started = cx.shared.start(Task::Orientate);
            assert(started);

            cx.shared.lock(Resource::BearingNorth);
            let bearing = cx.shared.bearing_north();
            let command = decide(bearing);
            cx.shared.unlock(Resource::BearingNorth);

            cx.decided = Some(command);
            assert(cx@.store.frames =~= old(cx)@.take_decision().store.frames);
        },
        Some(command) => {
            proof {
                let agenda = cx@.agenda;
                lemma_spawn_orderly(agenda, Task::EnableStepper);
                lemma_spawn_orderly(agenda, Task::DisableStepper);
                lemma_spawn_after_orderly(
                    agenda.spawn(Task::EnableStepper),
                    Task::Orientate,
                    ORIENTATE_PERIOD,
                );
                lemma_spawn_after_orderly(
                    agenda.spawn(Task::DisableStepper),
                    Task::Orientate,
                    ORIENTATE_PERIOD,
                );
            }
            let triggered = match command {
                Command::Turn(direction) => {
                    cx.direction_msg = direction;
                    cx.sched.spawn(Task::EnableStepper)
                },
                Command::Hold => cx.sched.spawn(Task::DisableStepper),
            };
            assert(triggered is Ok);

            // For responsiveness, keep this somewhat short without hogging
            // the processor and blocking other tasks
            let again = cx.sched.spawn_after(Task::Orientate, millis(250));
            assert(again is Ok);
            cx.shared.finish();
            cx.decided = None;
            assert(cx@.store.frames =~= Seq::<Frame>::empty());
        },
    }
}

/// Enable the stepper in the direction handed over
pub fn enable_stepper(cx: &mut Runtime)
    requires
        may_run(old(cx)@, Task::EnableStepper),
    ensures
        final(cx)@.wf(),
        final(cx)@ == old(cx)@.enable_stepper(),
{
    let direction = cx.direction_msg;
    let started = cx.shared.start(Task::EnableStepper);
    assert(started);

    cx.shared.lock(Resource::Board);
    let board = cx.shared.board_mut();
    let turned = board.stepper_set_direction(direction);
    let enabled = match turned {
        Ok(()) => board.stepper_enable(),
        Err(e) => Err(e),
    };
    match enabled {
        Ok(()) => {
            cx.shared.lock(Resource::StepperEnabled);
            cx.shared.set_stepper_enabled(true);
            cx.shared.unlock(Resource::StepperEnabled);
        },
        Err(e) => {
            cx.fault = Some(e);
            assert(cx@.store.frames =~= old(cx)@.stuck(
                Task::EnableStepper,
                Error::MissingCapability,
            ).store.frames);
            return ;
        },
    }
    cx.shared.unlock(Resource::Board);
    cx.shared.finish();
    assert(cx@.store.frames =~= old(cx)@.store.frames);
}

/// Disable the stepper
pub fn disable_stepper(cx: &mut Runtime)
    requires
        may_run(old(cx)@, Task::DisableStepper),
    ensures
        final(cx)@.wf(),
        final(cx)@ == old(cx)@.disable_stepper(),
{
    let started = cx.shared.start(Task::DisableStepper);
    assert(started);

    cx.shared.lock(Resource::Board);
    let board = cx.shared.board_mut();
    match board.stepper_disable() {
        Ok(()) => {
            cx.shared.lock(Resource::StepperEnabled);
            cx.shared.set_stepper_enabled(false);
            cx.shared.unlock(Resource::StepperEnabled);
        },
        Err(e) => {
            cx.fault = Some(e);
            assert(cx@.store.frames =~= old(cx)@.stuck(
                Task::DisableStepper,
                Error::MissingCapability,
            ).store.frames);
            return ;
        },
    }
    cx.shared.unlock(Resource::Board);
    cx.shared.finish();
    assert(cx@.store.frames =~= old(cx)@.store.frames);
}

/// Update the bearing toward north from the angle of the field vector that
/// the compass shows
pub fn update_bearing(cx: &mut Runtime, heading: Angle)
    requires
        may_run(old(cx)@, Task::UpdateBearing),
    ensures
        final(cx)@.wf(),
        final(cx)@ == old(cx)@.update_bearing(heading),
{
    let started = cx.shared.start(Task::UpdateBearing);
    assert(started);

    cx.shared.lock(Resource::Board);
    let board = cx.shared.board_mut();
    match board.bearing_north(heading) {
        Ok(new_bearing) => {
            cx.shared.lock(Resource::BearingNorth);
            cx.shared.set_bearing_north(new_bearing);
            cx.shared.unlock(Resource::BearingNorth);

            // Update the LED directionals
            proof {
                let agenda = cx@.agenda;
                lemma_spawn_orderly(agenda, Task::UpdateDisplay);
                lemma_spawn_after_orderly(
                    agenda.spawn(Task::UpdateDisplay),
                    Task::UpdateBearing,
                    UPDATE_BEARING_PERIOD,
                );
            }
            cx.bearing_msg = new_bearing;
            let triggered = cx.sched.spawn(Task::UpdateDisplay);
            assert(triggered is Ok);
        },
        Err(e) => {
            cx.fault = Some(e);
            assert(cx@.store.frames =~= old(cx)@.stuck(
                Task::UpdateBearing,
                Error::MissingCapability,
            ).store.frames);
            return ;
        },
    }
    cx.shared.unlock(Resource::Board);

    // Generally, we probably want this to update at least as often as the
    // stepper.  Pointless to update the stepper without a new bearing.
    let again = cx.sched.spawn_after(Task::UpdateBearing, millis(100));
    assert(again is Ok);
    cx.shared.finish();
    assert(cx@.store.frames =~= old(cx)@.store.frames);
}

/// Update the LED display to show the bearing handed over
pub fn update_display(cx: &mut Runtime)
    requires
        may_run(old(cx)@, Task::UpdateDisplay),
    ensures
        final(cx)@.wf(),
        final(cx)@ == old(cx)@.update_display(),
{
    let bearing = cx.bearing_msg;
    let started = cx.shared.start(Task::UpdateDisplay);
    assert(started);

    cx.shared.lock(Resource::Board);
    let board = cx.shared.board_mut();
    match display_bearing(board, bearing) {
        Ok(()) => {},
        Err(e) => {
            cx.fault = Some(e);
            assert(cx@.store.frames =~= old(cx)@.update_display().store.frames);
            return ;
        },
    }
    cx.shared.unlock(Resource::Board);
    cx.shared.finish();
    assert(cx@.store.frames =~= old(cx)@.store.frames);
}

} // verus!
