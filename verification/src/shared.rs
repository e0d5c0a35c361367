//! The shared orientation state: the device handle, the current bearing and
//! the actuator flag, each reachable only from inside a critical section on
//! it.
use vstd::prelude::*;
use crate::angle::Angle;
use crate::ceiling::{Ceiling, Frame, stack_admits, stack_wf};
use crate::task::{Resource, Task};
use crate::ConfiguredDevice;

verus! {

/// What the shared state holds: the view of a `Shared`.
pub struct Store {
    pub board: ConfiguredDevice,
    pub bearing_north: Angle,
    pub stepper_enabled: bool,
    /// The tasks that have started and not finished, the running task last.
    pub frames: Seq<Frame>,
}

impl Store {
    /// Whether the running task is inside a critical section on
    /// `resource`.
    pub open spec fn holds(self, resource: Resource) -> bool {
        self.frames.len() > 0 && self.frames.last().holds(resource)
    }

    /// Whether the running task may take `resource` now.
    pub open spec fn may_lock(self, resource: Resource) -> bool {
        self.frames.len() > 0 && self.frames.last().may_lock(resource)
    }

    /// The store with the running task's hold on `resource` set or
    /// cleared.
    pub open spec fn with_lock(self, resource: Resource, held: bool) -> Store {
        Store {
            frames: self.frames.drop_last().push(self.frames.last().with(resource, held)),
            ..self
        }
    }
}

/// The shared state with its lock manager.
#[derive(Debug)]
pub struct Shared {
    board: ConfiguredDevice,
    bearing_north: Angle,
    stepper_enabled: bool,
    ceiling: Ceiling,
}

impl View for Shared {
    type V = Store;

    closed spec fn view(&self) -> Store {
        Store {
            board: self.board,
            bearing_north: self.bearing_north,
            stepper_enabled: self.stepper_enabled,
            frames: self.ceiling@,
        }
    }
}

impl Shared {
    /// The state at start-up: a bearing of zero, the actuator at rest, no
    /// task running.
    pub fn new(board: ConfiguredDevice) -> (shared: Shared)
        ensures
            shared@ == (Store {
                board,
                bearing_north: Angle { bits: 0 },
                stepper_enabled: false,
                frames: Seq::empty(),
            }),
            stack_wf(shared@.frames),
    {
        Shared {
            board,
            bearing_north: Angle::from_bits(0),
            stepper_enabled: false,
            ceiling: Ceiling::new(),
        }
    }

    /// Lets `task` in if its priority is above the level at which the
    /// system runs. Returns whether it was let in; if not, nothing
    /// changes.
    pub fn start(&mut self, task: Task) -> (started: bool)
        requires
            stack_wf(old(self)@.frames),
        ensures
            stack_wf(final(self)@.frames),
            started == stack_admits(old(self)@.frames, task),
            final(self)@ == (Store {
                frames: if started {
                    old(self)@.frames.push(Frame::fresh(task))
                } else {
                    old(self)@.frames
                },
                ..old(self)@
            }),
    {
        self.ceiling.start(task)
    }

    /// The running task completes.
    pub fn finish(&mut self)
        requires
            stack_wf(old(self)@.frames),
            old(self)@.frames.len() > 0,
            old(self)@.frames.last() == Frame::fresh(old(self)@.frames.last().task),
        ensures
            stack_wf(final(self)@.frames),
            final(self)@ == (Store { frames: old(self)@.frames.drop_last(), ..old(self)@ }),
    {
        self.ceiling.finish()
    }

    /// The running task enters its critical section on `resource`. It
    /// never has to wait: no other task holds the resource.
    pub fn lock(&mut self, resource: Resource)
        requires
            stack_wf(old(self)@.frames),
            old(self)@.may_lock(resource),
        ensures
            stack_wf(final(self)@.frames),
            final(self)@ == old(self)@.with_lock(resource, true),
            forall|i: int|
                0 <= i < final(self)@.frames.len() - 1 ==> !(#[trigger] final(self)@.frames[i]).holds(
                    resource,
                ),
    {
        self.ceiling.lock(resource)
    }

    /// The running task leaves its critical section on `resource`.
    pub fn unlock(&mut self, resource: Resource)
        requires
            stack_wf(old(self)@.frames),
            old(self)@.holds(resource),
        ensures
            stack_wf(final(self)@.frames),
            final(self)@ == old(self)@.with_lock(resource, false),
    {
        self.ceiling.unlock(resource)
    }

    /// Whether the running task is inside a critical section on
    /// `resource`.
    pub fn holds(&self, resource: Resource) -> (r: bool)
        ensures
            r == self@.holds(resource),
    {
        self.ceiling.holds(resource)
    }

    /// The current bearing, read inside its critical section.
    pub fn bearing_north(&self) -> (bearing: Angle)
        requires
            self@.holds(Resource::BearingNorth),
        ensures
            bearing == self@.bearing_north,
    {
        self.bearing_north
    }

    /// Publishes a bearing, inside its critical section.
    pub fn set_bearing_north(&mut self, bearing: Angle)
        requires
            old(self)@.holds(Resource::BearingNorth),
        ensures
            final(self)@ == (Store { bearing_north: bearing, ..old(self)@ }),
    {
        self.bearing_north = bearing;
    }

    /// Whether the actuator was last told to run, read inside the flag's
    /// critical section.
    pub fn stepper_enabled(&self) -> (enabled: bool)
        requires
            self@.holds(Resource::StepperEnabled),
        ensures
            enabled == self@.stepper_enabled,
    {
        self.stepper_enabled
    }

    /// Records what the actuator was last told, inside the flag's critical
    /// section.
    pub fn set_stepper_enabled(&mut self, enabled: bool)
        requires
            old(self)@.holds(Resource::StepperEnabled),
        ensures
            final(self)@ == (Store { stepper_enabled: enabled, ..old(self)@ }),
    {
        self.stepper_enabled = enabled;
    }

    /// The device handle, for the task inside its critical section.
    pub fn board_mut(&mut self) -> (board: &mut ConfiguredDevice)
        requires
            old(self)@.holds(Resource::Board),
        ensures
            *board == old(self)@.board,
            final(self)@ == (Store { board: *final(board), ..old(self)@ }),
    {
        &mut self.board
    }

    /// The bearing and the actuator flag as an observer between two tasks
    /// sees them.
    pub fn observe(&self) -> (seen: (Angle, bool))
        ensures
            seen == (self@.bearing_north, self@.stepper_enabled),
    {
        (self.bearing_north, self.stepper_enabled)
    }

    /// The device as last commanded: what the platform adapter copies to
    /// the pins between two tasks.
    pub fn board(&self) -> (board: &ConfiguredDevice)
        ensures
            *board == self@.board,
    {
        &self.board
    }
}

} // verus!
