//! The lock discipline: priority ceilings on a stack of running tasks.
//!
//! A task that holds a lock runs at the ceiling of the locked resource. A
//! task is let in only above the priority at which the system runs, so a
//! task that is let in never needs a lock that a task below it holds: no
//! lock is ever waited for, and no two tasks are inside a critical section
//! on one resource.
use vstd::prelude::*;
use crate::task::{Resource, Task, lemma_ceiling_is_highest_user};

verus! {

/// A task that has started and not finished, with the locks it holds.
#[derive(Clone, Copy, Debug, PartialEq, Eq, Structural)]
pub struct Frame {
    pub task: Task,
    pub board: bool,
    pub bearing_north: bool,
    pub stepper_enabled: bool,
}

impl Frame {
    /// Whether the frame's task is inside a critical section on `resource`.
    pub open spec fn holds(self, resource: Resource) -> bool {
        match resource {
            Resource::Board => self.board,
            Resource::BearingNorth => self.bearing_north,
            Resource::StepperEnabled => self.stepper_enabled,
        }
    }

    /// The frame with `resource` locked or released.
    pub open spec fn with(self, resource: Resource, held: bool) -> Frame {
        match resource {
            Resource::Board => Frame { board: held, ..self },
            Resource::BearingNorth => Frame { bearing_north: held, ..self },
            Resource::StepperEnabled => Frame { stepper_enabled: held, ..self },
        }
    }

    /// A task that has just started: no lock held.
    pub open spec fn fresh(task: Task) -> Frame {
        Frame { task, board: false, bearing_north: false, stepper_enabled: false }
    }

    /// The priority at which the frame's task runs: its own, raised to the
    /// ceiling of every resource it holds.
    pub open spec fn spec_level(self) -> u8 {
        let own = self.task.spec_priority();
        let board = if self.board && Resource::Board.spec_ceiling() > own {
            Resource::Board.spec_ceiling()
        } else {
            own
        };
        let bearing = if self.bearing_north && Resource::BearingNorth.spec_ceiling() > board {
            Resource::BearingNorth.spec_ceiling()
        } else {
            board
        };
        if self.stepper_enabled && Resource::StepperEnabled.spec_ceiling() > bearing {
            Resource::StepperEnabled.spec_ceiling()
        } else {
            bearing
        }
    }

    /// The frame holds only resources that its task is declared to use.
    pub open spec fn declared(self) -> bool {
        forall|resource: Resource| self.holds(resource) ==> self.task.spec_uses(resource)
    }

    /// Whether the frame's task may take `resource` now: it is declared to
    /// use it, does not hold it, and holds nothing that comes later in the
    /// order of acquisition.
    pub open spec fn may_lock(self, resource: Resource) -> bool {
        &&& self.task.spec_uses(resource)
        &&& forall|held: Resource| self.holds(held) ==> held.rank() < resource.rank()
    }

    #[verifier::when_used_as_spec(spec_level)]
    pub fn level(self) -> (l: u8)
        ensures
            l == self.spec_level(),
    {
        let mut l: u8 = self.task.priority();
        if self.board && Resource::Board.ceiling() > l {
            l = Resource::Board.ceiling();
        }
        if self.bearing_north && Resource::BearingNorth.ceiling() > l {
            l = Resource::BearingNorth.ceiling();
        }
        if self.stepper_enabled && Resource::StepperEnabled.ceiling() > l {
            l = Resource::StepperEnabled.ceiling();
        }
        l
    }
}

/// The stack of a well-formed system: every frame holds only what its task
/// declared, and every frame was let in above the level of each frame below
/// it.
pub open spec fn stack_wf(frames: Seq<Frame>) -> bool {
    &&& forall|i: int| 0 <= i < frames.len() ==> (#[trigger] frames[i]).declared()
    &&& forall|i: int, j: int|
        0 <= i < j < frames.len() ==> (#[trigger] frames[j]).task.spec_priority() > (
        #[trigger] frames[i]).spec_level()
}

/// The priority at which the system runs: that of the running task, and
/// zero while none runs.
pub open spec fn stack_level(frames: Seq<Frame>) -> u8 {
    if frames.len() == 0 {
        0
    } else {
        frames.last().spec_level()
    }
}

/// Whether `task` would be let in: only above the level of the system.
pub open spec fn stack_admits(frames: Seq<Frame>, task: Task) -> bool {
    task.spec_priority() > stack_level(frames)
}

/// The level of a frame is at least its task's priority and at least the
/// ceiling of each resource it holds.
pub proof fn lemma_level_covers(frame: Frame)
    ensures
        frame.task.spec_priority() <= frame.spec_level(),
        forall|resource: Resource|
            frame.holds(resource) ==> resource.spec_ceiling() <= frame.spec_level(),
{
}

/// Mutual exclusion: in a well-formed stack no resource is held by two
/// frames.
pub proof fn lemma_mutual_exclusion(frames: Seq<Frame>, i: int, j: int, resource: Resource)
    requires
        stack_wf(frames),
        0 <= i < frames.len(),
        0 <= j < frames.len(),
        i != j,
    ensures
        !(frames[i].holds(resource) && frames[j].holds(resource)),
{
    let (lower, upper) = if i < j { (i, j) } else { (j, i) };
    if frames[lower].holds(resource) && frames[upper].holds(resource) {
        lemma_ceiling_is_highest_user(resource);
        lemma_level_covers(frames[lower]);
        assert(frames[upper].declared());
        assert(frames[upper].task.spec_priority() > frames[lower].spec_level());
    }
}

/// While a task is inside a critical section on a resource, no task that
/// uses the resource is let in.
pub proof fn lemma_contender_is_kept_out(frames: Seq<Frame>, i: int, resource: Resource, contender: Task)
    requires
        stack_wf(frames),
        0 <= i < frames.len(),
        frames[i].holds(resource),
        contender.spec_uses(resource),
    ensures
        !stack_admits(frames, contender),
{
    lemma_ceiling_is_highest_user(resource);
    lemma_level_covers(frames[i]);
    lemma_level_covers(frames.last());
    if i < frames.len() - 1 {
        assert(frames[frames.len() - 1].task.spec_priority() > frames[i].spec_level());
    }
}

/// The running task never finds a resource that it may lock in the hands of
/// a task below it: a lock is never waited for.
pub proof fn lemma_lock_is_free(frames: Seq<Frame>, resource: Resource)
    requires
        stack_wf(frames),
        frames.len() > 0,
        frames.last().task.spec_uses(resource),
    ensures
        forall|i: int| 0 <= i < frames.len() - 1 ==> !(#[trigger] frames[i]).holds(resource),
{
    assert forall|i: int| 0 <= i < frames.len() - 1 implies !(#[trigger] frames[i]).holds(
        resource,
    ) by {
        if frames[i].holds(resource) {
            lemma_ceiling_is_highest_user(resource);
            lemma_level_covers(frames[i]);
            assert(frames[frames.len() - 1].task.spec_priority() > frames[i].spec_level());
        }
    }
}

/// Letting a task in above the level of the system keeps the stack well
/// formed.
pub proof fn lemma_let_in(frames: Seq<Frame>, top: Frame)
    requires
        stack_wf(frames),
        stack_admits(frames, top.task),
        top.declared(),
    ensures
        stack_wf(frames.push(top)),
{
    let after = frames.push(top);
    assert forall|i: int| 0 <= i < after.len() implies (#[trigger] after[i]).declared() by {
        if i < frames.len() {
            assert(frames[i].declared());
        }
    }
    assert forall|i: int, j: int| 0 <= i < j < after.len() implies (
    #[trigger] after[j]).task.spec_priority() > (#[trigger] after[i]).spec_level() by {
        if j < frames.len() {
            assert(frames[j].task.spec_priority() > frames[i].spec_level());
        } else {
            lemma_level_covers(frames.last());
            if i < frames.len() - 1 {
                assert(frames[frames.len() - 1].task.spec_priority() > frames[i].spec_level());
            }
        }
    }
}

/// Changing what the running task holds, within what it declared, keeps the
/// stack well formed.
proof fn lemma_replace_top(frames: Seq<Frame>, frame: Frame)
    requires
        stack_wf(frames),
        frames.len() > 0,
        frame.task == frames.last().task,
        frame.declared(),
    ensures
        stack_wf(frames.drop_last().push(frame)),
{
    let after = frames.drop_last().push(frame);
    assert forall|i: int| 0 <= i < after.len() implies (#[trigger] after[i]).declared() by {
        if i < after.len() - 1 {
            assert(frames[i].declared());
        }
    }
    assert forall|i: int, j: int| 0 <= i < j < after.len() implies (
    #[trigger] after[j]).task.spec_priority() > (#[trigger] after[i]).spec_level() by {
        assert(frames[j].task.spec_priority() > frames[i].spec_level());
    }
}

/// The lock manager. The view is the stack of frames, the running task
/// last.
#[derive(Debug)]
pub struct Ceiling {
    frames: Vec<Frame>,
}

impl View for Ceiling {
    type V = Seq<Frame>;

    closed spec fn view(&self) -> Seq<Frame> {
        self.frames@
    }
}

impl Ceiling {
    /// A system in which no task runs.
    pub fn new() -> (ceiling: Ceiling)
        ensures
            ceiling@ == Seq::<Frame>::empty(),
            stack_wf(ceiling@),
    {
        Ceiling { frames: Vec::new() }
    }

    /// The priority at which the system runs.
    pub fn level(&self) -> (l: u8)
        ensures
            l == stack_level(self@),
    {
        let n = self.frames.len();
        if n == 0 {
            0
        } else {
            self.frames[n - 1].level()
        }
    }

    /// Whether `task` would be let in now.
    pub fn admits(&self, task: Task) -> (r: bool)
        ensures
            r == stack_admits(self@, task),
    {
        task.priority() > self.level()
    }

    /// The running task, if one runs.
    pub fn running(&self) -> (task: Option<Task>)
        ensures
            task == (if self@.len() == 0 {
                None
            } else {
                Some(self@.last().task)
            }),
    {
        let n = self.frames.len();
        if n == 0 {
            None
        } else {
            Some(self.frames[n - 1].task)
        }
    }

    /// Whether the running task is inside a critical section on
    /// `resource`.
    pub fn holds(&self, resource: Resource) -> (r: bool)
        ensures
            r == (self@.len() > 0 && self@.last().holds(resource)),
    {
        let n = self.frames.len();
        if n == 0 {
            false
        } else {
            let frame = self.frames[n - 1];
            match resource {
                Resource::Board => frame.board,
                Resource::BearingNorth => frame.bearing_north,
                Resource::StepperEnabled => frame.stepper_enabled,
            }
        }
    }

    /// Lets `task` in if its priority is above the level of the system, on
    /// top of the task that ran until now. Returns whether it was let in;
    /// if not, nothing changes.
    pub fn start(&mut self, task: Task) -> (started: bool)
        requires
            stack_wf(old(self)@),
        ensures
            stack_wf(final(self)@),
            started == stack_admits(old(self)@, task),
            final(self)@ == (if started {
                old(self)@.push(Frame::fresh(task))
            } else {
                old(self)@
            }),
    {
        if !self.admits(task) {
            return false;
        }
        let frame = Frame { task, board: false, bearing_north: false, stepper_enabled: false };
        proof {
            lemma_let_in(self@, frame);
        }
        self.frames.push(frame);
        true
    }

    /// The running task enters its critical section on `resource`. It never
    /// has to wait: no other task holds the resource.
    pub fn lock(&mut self, resource: Resource)
        requires
            stack_wf(old(self)@),
            old(self)@.len() > 0,
            old(self)@.last().may_lock(resource),
        ensures
            stack_wf(final(self)@),
            final(self)@ == old(self)@.drop_last().push(old(self)@.last().with(resource, true)),
            forall|i: int|
                0 <= i < final(self)@.len() - 1 ==> !(#[trigger] final(self)@[i]).holds(resource),
    {
        let n = self.frames.len();
        let mut frame = self.frames[n - 1];
        match resource {
            Resource::Board => {
                frame.board = true;
            },
            Resource::BearingNorth => {
                frame.bearing_north = true;
            },
            Resource::StepperEnabled => {
                frame.stepper_enabled = true;
            },
        }
        proof {
            lemma_lock_is_free(self@, resource);
            let before = self@.last();
            assert(before.declared());
            assert forall|r: Resource| frame.holds(r) implies frame.task.spec_uses(r) by {
                if r != resource {
                    assert(before.holds(r));
                }
            }
            lemma_replace_top(self@, frame);
        }
        self.frames.set(n - 1, frame);
        assert(self@ =~= old(self)@.drop_last().push(old(self)@.last().with(resource, true)));
    }

    /// The running task leaves its critical section on `resource`.
    pub fn unlock(&mut self, resource: Resource)
        requires
            stack_wf(old(self)@),
            old(self)@.len() > 0,
            old(self)@.last().holds(resource),
        ensures
            stack_wf(final(self)@),
            final(self)@ == old(self)@.drop_last().push(old(self)@.last().with(resource, false)),
    {
        let n = self.frames.len();
        let mut frame = self.frames[n - 1];
        match resource {
            Resource::Board => {
                frame.board = false;
            },
            Resource::BearingNorth => {
                frame.bearing_north = false;
            },
            Resource::StepperEnabled => {
                frame.stepper_enabled = false;
            },
        }
        proof {
            let before = self@.last();
            assert(before.declared());
            assert forall|r: Resource| frame.holds(r) implies frame.task.spec_uses(r) by {
                assert(before.holds(r));
            }
            lemma_replace_top(self@, frame);
        }
        self.frames.set(n - 1, frame);
        assert(self@ =~= old(self)@.drop_last().push(old(self)@.last().with(resource, false)));
    }

    /// The running task completes, and the task below it runs on.
    pub fn finish(&mut self)
        requires
            stack_wf(old(self)@),
            old(self)@.len() > 0,
            old(self)@.last() == Frame::fresh(old(self)@.last().task),
        ensures
            stack_wf(final(self)@),
            final(self)@ == old(self)@.drop_last(),
    {
        self.frames.pop();
    }
}

} // verus!
