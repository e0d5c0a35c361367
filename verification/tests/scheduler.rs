use orient::scheduler::Scheduler;
use orient::task::Task;

fn drain(scheduler: &mut Scheduler) -> Vec<Task> {
    let mut order = Vec::new();
    while let Some(task) = scheduler.next() {
        order.push(task);
    }
    order
}

#[test]
fn a_new_scheduler_is_empty() {
    let mut scheduler = Scheduler::new();
    assert_eq!(scheduler.now(), 0);
    assert_eq!(scheduler.peek(), None);
    assert_eq!(scheduler.next(), None);
    assert_eq!(scheduler.next_due(), None);
    assert!(!scheduler.is_pending(Task::Orientate));
}

#[test]
fn higher_priority_runs_first() {
    let mut scheduler = Scheduler::new();
    assert_eq!(scheduler.spawn(Task::Orientate), Ok(()));
    assert_eq!(scheduler.spawn(Task::UpdateDisplay), Ok(()));
    assert_eq!(scheduler.spawn(Task::DisableStepper), Ok(()));
    assert_eq!(scheduler.spawn(Task::UpdateBearing), Ok(()));
    assert_eq!(scheduler.peek(), Some(Task::UpdateDisplay));
    assert_eq!(
        drain(&mut scheduler),
        vec![Task::UpdateDisplay, Task::UpdateBearing, Task::Orientate, Task::DisableStepper]
    );
}

#[test]
fn equal_priority_runs_in_spawn_order() {
    let mut scheduler = Scheduler::new();
    assert_eq!(scheduler.spawn(Task::EnableStepper), Ok(()));
    assert_eq!(scheduler.spawn(Task::Orientate), Ok(()));
    assert_eq!(scheduler.spawn(Task::DisableStepper), Ok(()));
    assert_eq!(
        drain(&mut scheduler),
        vec![Task::EnableStepper, Task::Orientate, Task::DisableStepper]
    );
    assert_eq!(scheduler.spawn(Task::DisableStepper), Ok(()));
    assert_eq!(scheduler.spawn(Task::EnableStepper), Ok(()));
    assert_eq!(drain(&mut scheduler), vec![Task::DisableStepper, Task::EnableStepper]);
}

#[test]
fn a_task_in_flight_is_not_spawned_again() {
    let mut scheduler = Scheduler::new();
    assert_eq!(scheduler.spawn(Task::Orientate), Ok(()));
    assert!(scheduler.is_pending(Task::Orientate));
    assert_eq!(scheduler.spawn(Task::Orientate), Err(Task::Orientate));
    assert_eq!(scheduler.spawn_after(Task::Orientate, 5), Err(Task::Orientate));
    assert_eq!(scheduler.spawn_after(Task::UpdateBearing, 5), Ok(()));
    assert!(scheduler.is_pending(Task::UpdateBearing));
    assert_eq!(scheduler.spawn(Task::UpdateBearing), Err(Task::UpdateBearing));
    assert_eq!(scheduler.spawn_after(Task::UpdateBearing, 9), Err(Task::UpdateBearing));
    assert_eq!(drain(&mut scheduler), vec![Task::Orientate]);
    assert!(!scheduler.is_pending(Task::Orientate));
    assert_eq!(scheduler.spawn(Task::Orientate), Ok(()));
    scheduler.advance(5);
    assert_eq!(drain(&mut scheduler), vec![Task::UpdateBearing, Task::Orientate]);
    assert_eq!(scheduler.spawn(Task::UpdateBearing), Ok(()));
}

#[test]
fn a_timer_fires_at_its_tick_and_not_before() {
    let mut scheduler = Scheduler::new();
    assert_eq!(scheduler.spawn_after(Task::Orientate, 250), Ok(()));
    assert_eq!(scheduler.next_due(), Some(250));
    scheduler.advance(249);
    assert_eq!(scheduler.now(), 249);
    assert_eq!(scheduler.peek(), None);
    assert!(scheduler.is_pending(Task::Orientate));
    scheduler.advance(250);
    assert_eq!(scheduler.peek(), Some(Task::Orientate));
    assert_eq!(scheduler.next_due(), None);
    assert_eq!(scheduler.next(), Some(Task::Orientate));
    assert!(!scheduler.is_pending(Task::Orientate));
}

#[test]
fn a_timer_counts_from_the_current_tick() {
    let mut scheduler = Scheduler::new();
    scheduler.advance(1_000);
    assert_eq!(scheduler.spawn_after(Task::UpdateBearing, 100), Ok(()));
    assert_eq!(scheduler.next_due(), Some(1_100));
    scheduler.advance(1_099);
    assert_eq!(scheduler.next(), None);
    scheduler.advance(1_100);
    assert_eq!(scheduler.next(), Some(Task::UpdateBearing));
}

#[test]
fn timers_fire_in_order_of_their_due_time() {
    let mut scheduler = Scheduler::new();
    assert_eq!(scheduler.spawn_after(Task::Orientate, 30), Ok(()));
    assert_eq!(scheduler.spawn_after(Task::EnableStepper, 10), Ok(()));
    assert_eq!(scheduler.spawn_after(Task::DisableStepper, 20), Ok(()));
    assert_eq!(scheduler.next_due(), Some(10));
    scheduler.advance(100);
    assert_eq!(scheduler.now(), 100);
    assert_eq!(
        drain(&mut scheduler),
        vec![Task::EnableStepper, Task::DisableStepper, Task::Orientate]
    );
}

#[test]
fn timers_due_at_one_tick_fire_in_the_order_they_were_set() {
    let mut scheduler = Scheduler::new();
    assert_eq!(scheduler.spawn_after(Task::DisableStepper, 10), Ok(()));
    assert_eq!(scheduler.spawn_after(Task::Orientate, 10), Ok(()));
    assert_eq!(scheduler.spawn_after(Task::EnableStepper, 10), Ok(()));
    scheduler.advance(10);
    assert_eq!(
        drain(&mut scheduler),
        vec![Task::DisableStepper, Task::Orientate, Task::EnableStepper]
    );
}

#[test]
fn a_fired_task_queues_behind_the_ready_ones() {
    let mut scheduler = Scheduler::new();
    assert_eq!(scheduler.spawn_after(Task::UpdateBearing, 10), Ok(()));
    assert_eq!(scheduler.spawn(Task::UpdateDisplay), Ok(()));
    scheduler.advance(10);
    assert_eq!(drain(&mut scheduler), vec![Task::UpdateDisplay, Task::UpdateBearing]);
}

#[test]
fn the_clock_never_runs_backwards() {
    let mut scheduler = Scheduler::new();
    scheduler.advance(500);
    scheduler.advance(400);
    assert_eq!(scheduler.now(), 500);
    assert_eq!(scheduler.spawn_after(Task::Orientate, 0), Ok(()));
    assert_eq!(scheduler.next(), None);
    scheduler.advance(0);
    assert_eq!(scheduler.now(), 500);
    assert_eq!(scheduler.next(), Some(Task::Orientate));
}

#[test]
fn a_timer_beyond_the_last_tick_is_due_at_the_last_tick() {
    let mut scheduler = Scheduler::new();
    scheduler.advance(u64::MAX - 10);
    assert_eq!(scheduler.spawn_after(Task::Orientate, 250), Ok(()));
    assert_eq!(scheduler.next_due(), Some(u64::MAX));
    assert_eq!(scheduler.spawn_after(Task::UpdateBearing, 10), Ok(()));
    assert_eq!(scheduler.spawn_after(Task::UpdateDisplay, 9), Ok(()));
    assert_eq!(scheduler.next_due(), Some(u64::MAX - 1));
    scheduler.advance(u64::MAX - 1);
    assert_eq!(drain(&mut scheduler), vec![Task::UpdateDisplay]);
    scheduler.advance(u64::MAX);
    assert_eq!(drain(&mut scheduler), vec![Task::UpdateBearing, Task::Orientate]);
}
