use orient::ceiling::Ceiling;
use orient::task::{Resource, Task, HIGH, LOW};

const TASKS: [Task; 5] = [
    Task::UpdateBearing,
    Task::UpdateDisplay,
    Task::Orientate,
    Task::EnableStepper,
    Task::DisableStepper,
];

const RESOURCES: [Resource; 3] = [Resource::Board, Resource::BearingNorth, Resource::StepperEnabled];

#[test]
fn the_task_table() {
    assert_eq!(HIGH, 2);
    assert_eq!(LOW, 1);
    assert_eq!(Task::UpdateBearing.priority(), 2);
    assert_eq!(Task::UpdateDisplay.priority(), 2);
    assert_eq!(Task::Orientate.priority(), 1);
    assert_eq!(Task::EnableStepper.priority(), 1);
    assert_eq!(Task::DisableStepper.priority(), 1);
}

#[test]
fn the_resources_each_task_uses() {
    for task in [Task::UpdateBearing, Task::UpdateDisplay, Task::Orientate] {
        assert!(task.uses(Resource::Board));
        assert!(task.uses(Resource::BearingNorth));
        assert!(!task.uses(Resource::StepperEnabled));
    }
    for task in [Task::EnableStepper, Task::DisableStepper] {
        assert!(task.uses(Resource::Board));
        assert!(!task.uses(Resource::BearingNorth));
        assert!(task.uses(Resource::StepperEnabled));
    }
}

#[test]
fn a_ceiling_is_the_highest_priority_among_the_users() {
    for resource in RESOURCES {
        let highest = TASKS.iter().filter(|t| t.uses(resource)).map(|t| t.priority()).max();
        assert_eq!(Some(resource.ceiling()), highest);
    }
    assert_eq!(Resource::Board.ceiling(), 2);
    assert_eq!(Resource::BearingNorth.ceiling(), 2);
    assert_eq!(Resource::StepperEnabled.ceiling(), 1);
}

#[test]
fn an_idle_system_lets_every_task_in() {
    for task in TASKS {
        let mut ceiling = Ceiling::new();
        assert_eq!(ceiling.level(), 0);
        assert_eq!(ceiling.running(), None);
        assert!(ceiling.admits(task));
        assert!(ceiling.start(task));
        assert_eq!(ceiling.running(), Some(task));
        assert_eq!(ceiling.level(), task.priority());
        ceiling.finish();
        assert_eq!(ceiling.running(), None);
        assert_eq!(ceiling.level(), 0);
    }
}

#[test]
fn only_a_strictly_higher_priority_preempts() {
    let mut ceiling = Ceiling::new();
    assert!(ceiling.start(Task::Orientate));
    assert!(!ceiling.admits(Task::EnableStepper));
    assert!(!ceiling.start(Task::DisableStepper));
    assert_eq!(ceiling.running(), Some(Task::Orientate));
    assert!(ceiling.start(Task::UpdateBearing));
    assert_eq!(ceiling.running(), Some(Task::UpdateBearing));
    assert!(!ceiling.start(Task::UpdateDisplay));
    ceiling.finish();
    assert_eq!(ceiling.running(), Some(Task::Orientate));
    ceiling.finish();
    assert_eq!(ceiling.running(), None);
}

#[test]
fn a_lock_raises_the_level_to_the_ceiling() {
    let mut ceiling = Ceiling::new();
    assert!(ceiling.start(Task::Orientate));
    assert_eq!(ceiling.level(), 1);
    assert!(!ceiling.holds(Resource::BearingNorth));
    ceiling.lock(Resource::BearingNorth);
    assert!(ceiling.holds(Resource::BearingNorth));
    assert_eq!(ceiling.level(), 2);
    ceiling.unlock(Resource::BearingNorth);
    assert!(!ceiling.holds(Resource::BearingNorth));
    assert_eq!(ceiling.level(), 1);
    ceiling.finish();
}

#[test]
fn a_contender_stays_out_while_the_lock_is_held() {
    let mut ceiling = Ceiling::new();
    assert!(ceiling.start(Task::Orientate));
    ceiling.lock(Resource::BearingNorth);
    // Both high tasks use the bearing: neither may preempt now.
    assert!(!ceiling.admits(Task::UpdateBearing));
    assert!(!ceiling.start(Task::UpdateDisplay));
    assert_eq!(ceiling.running(), Some(Task::Orientate));
    ceiling.unlock(Resource::BearingNorth);
    // Outside the critical section the high task preempts, and finds the
    // lock free.
    assert!(ceiling.start(Task::UpdateBearing));
    ceiling.lock(Resource::Board);
    ceiling.lock(Resource::BearingNorth);
    assert!(ceiling.holds(Resource::BearingNorth));
    ceiling.unlock(Resource::BearingNorth);
    ceiling.unlock(Resource::Board);
    ceiling.finish();
    assert_eq!(ceiling.running(), Some(Task::Orientate));
    assert!(!ceiling.holds(Resource::BearingNorth));
    ceiling.finish();
}

#[test]
fn no_task_that_uses_a_held_resource_is_let_in() {
    for holder in TASKS {
        for resource in RESOURCES {
            if !holder.uses(resource) {
                continue;
            }
            let mut ceiling = Ceiling::new();
            assert!(ceiling.start(holder));
            ceiling.lock(resource);
            for contender in TASKS {
                if contender.uses(resource) {
                    assert!(!ceiling.admits(contender), "{:?} {:?} {:?}", holder, resource, contender);
                }
            }
        }
    }
}

#[test]
fn the_flag_lock_keeps_high_tasks_free_to_preempt() {
    // A low task holding only the actuator flag runs at level 1: a high
    // task, which never uses the flag, may preempt it.
    let mut ceiling = Ceiling::new();
    assert!(ceiling.start(Task::EnableStepper));
    ceiling.lock(Resource::StepperEnabled);
    assert_eq!(ceiling.level(), 1);
    assert!(ceiling.admits(Task::UpdateBearing));
    assert!(!ceiling.admits(Task::DisableStepper));
    ceiling.unlock(Resource::StepperEnabled);
    ceiling.finish();
}

#[test]
fn nested_locks_in_the_order_of_acquisition() {
    let mut ceiling = Ceiling::new();
    assert!(ceiling.start(Task::DisableStepper));
    ceiling.lock(Resource::Board);
    assert_eq!(ceiling.level(), 2);
    ceiling.lock(Resource::StepperEnabled);
    assert!(ceiling.holds(Resource::Board));
    assert!(ceiling.holds(Resource::StepperEnabled));
    assert_eq!(ceiling.level(), 2);
    ceiling.unlock(Resource::StepperEnabled);
    ceiling.unlock(Resource::Board);
    assert_eq!(ceiling.level(), 1);
    ceiling.finish();
    assert_eq!(ceiling.level(), 0);
}
