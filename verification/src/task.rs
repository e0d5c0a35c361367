//! The fixed task table: five tasks, two priority levels, and the shared
//! resources that each task is allowed to lock.
use vstd::prelude::*;
use crate::cadence::{ORIENTATE_PERIOD, UPDATE_BEARING_PERIOD};

verus! {

/// Priority of the tasks that sample the sensor and drive the display.
pub const HIGH: u8 = 2;

/// Priority of the tasks that steer the actuator.
pub const LOW: u8 = 1;

/// The tasks of the system.
#[derive(Clone, Copy, Debug, PartialEq, Eq, Structural)]
pub enum Task {
    /// Samples the sensor and publishes the bearing; runs every 100 ms.
    UpdateBearing,
    /// Shows the published bearing on the ring; triggered by
    /// `UpdateBearing`.
    UpdateDisplay,
    /// Decides what the actuator should do; runs every 250 ms.
    Orientate,
    /// Starts the actuator in a direction; triggered by `Orientate`.
    EnableStepper,
    /// Stops the actuator; triggered by `Orientate`.
    DisableStepper,
}

/// The shared resources, each behind a lock of its own.
#[derive(Clone, Copy, Debug, PartialEq, Eq, Structural)]
pub enum Resource {
    /// The device handle.
    Board,
    /// The current bearing.
    BearingNorth,
    /// Whether the actuator was last told to run.
    StepperEnabled,
}

impl Task {
    pub open spec fn spec_priority(self) -> u8 {
        match self {
            Task::UpdateBearing => HIGH,
            Task::UpdateDisplay => HIGH,
            Task::Orientate => LOW,
            Task::EnableStepper => LOW,
            Task::DisableStepper => LOW,
        }
    }

    /// The priority of the task: a higher number runs first.
    #[verifier::when_used_as_spec(spec_priority)]
    pub fn priority(self) -> (p: u8)
        ensures
            p == self.spec_priority(),
            p == HIGH || p == LOW,
    {
        match self {
            Task::UpdateBearing => HIGH,
            Task::UpdateDisplay => HIGH,
            Task::Orientate => LOW,
            Task::EnableStepper => LOW,
            Task::DisableStepper => LOW,
        }
    }

    pub open spec fn spec_uses(self, resource: Resource) -> bool {
        match self {
            Task::UpdateBearing => resource != Resource::StepperEnabled,
            Task::UpdateDisplay => resource != Resource::StepperEnabled,
            Task::Orientate => resource != Resource::StepperEnabled,
            Task::EnableStepper => resource != Resource::BearingNorth,
            Task::DisableStepper => resource != Resource::BearingNorth,
        }
    }

    /// Whether the task is declared to lock `resource`.
    #[verifier::when_used_as_spec(spec_uses)]
    pub fn uses(self, resource: Resource) -> (r: bool)
        ensures
            r == self.spec_uses(resource),
    {
        match self {
            Task::UpdateBearing | Task::UpdateDisplay | Task::Orientate => match resource {
                Resource::StepperEnabled => false,
                _ => true,
            },
            Task::EnableStepper | Task::DisableStepper => match resource {
                Resource::BearingNorth => false,
                _ => true,
            },
        }
    }

    /// The ticks after which the task, on completion, runs again; `None`
    /// for a task that runs only when another task triggers it.
    pub open spec fn period(self) -> Option<u64> {
        match self {
            Task::UpdateBearing => Some(UPDATE_BEARING_PERIOD),
            Task::Orientate => Some(ORIENTATE_PERIOD),
            _ => None,
        }
    }

    /// The task that triggers this one; `None` for a periodic task.
    pub open spec fn trigger(self) -> Option<Task> {
        match self {
            Task::UpdateDisplay => Some(Task::UpdateBearing),
            Task::EnableStepper => Some(Task::Orientate),
            Task::DisableStepper => Some(Task::Orientate),
            _ => None,
        }
    }

    /// Whether the task reschedules itself when it completes; the others
    /// run only when another task triggers them.
    pub open spec fn periodic(self) -> bool {
        self.period() is Some
    }
}

/// Every task is periodic or triggered, never both; a task is triggered by
/// a periodic task of its own priority.
pub proof fn lemma_task_table(task: Task)
    ensures
        task.period() is Some <==> task.trigger() is None,
        task.trigger() matches Some(by) ==> by.periodic() && by.spec_priority()
            == task.spec_priority(),
{
}

impl Resource {
    pub open spec fn spec_ceiling(self) -> u8 {
        match self {
            Resource::Board => HIGH,
            Resource::BearingNorth => HIGH,
            Resource::StepperEnabled => LOW,
        }
    }

    /// The ceiling of the resource: the priority at which its holder runs
    /// while it holds the lock.
    #[verifier::when_used_as_spec(spec_ceiling)]
    pub fn ceiling(self) -> (c: u8)
        ensures
            c == self.spec_ceiling(),
    {
        match self {
            Resource::Board => HIGH,
            Resource::BearingNorth => HIGH,
            Resource::StepperEnabled => LOW,
        }
    }

    /// Place in the one order in which a task may take several locks: the
    /// device handle before either scalar.
    pub open spec fn rank(self) -> nat {
        match self {
            Resource::Board => 0,
            Resource::BearingNorth => 1,
            Resource::StepperEnabled => 2,
        }
    }
}

/// The ceiling of a resource is the highest priority among the tasks that
/// use it: no user runs above it, and one runs at it.
pub proof fn lemma_ceiling_is_highest_user(resource: Resource)
    ensures
        forall|task: Task| task.spec_uses(resource) ==> task.spec_priority() <= resource.spec_ceiling(),
        exists|task: Task| task.spec_uses(resource) && task.spec_priority() == resource.spec_ceiling(),
{
    match resource {
        Resource::StepperEnabled => {
            let task = Task::EnableStepper;
            assert(task.spec_uses(resource) && task.spec_priority() == resource.spec_ceiling());
        },
        _ => {
            let task = Task::UpdateBearing;
            assert(task.spec_uses(resource) && task.spec_priority() == resource.spec_ceiling());
        },
    }
}

} // verus!
