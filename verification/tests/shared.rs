use orient::angle::Angle;
use orient::compass::Compass;
use orient::leds::LedId;
use orient::shared::Shared;
use orient::stepper::Stepper;
use orient::task::{Resource, Task};
use orient::ConfiguredDevice;

fn angle(value: f32) -> Angle {
    Angle::from_bits(value.to_bits())
}

fn fresh() -> Shared {
    Shared::new(ConfiguredDevice::new(8_000_000, Ok(Compass::new()), Ok(Stepper::new(200))))
}

#[test]
fn the_shared_state_starts_at_rest() {
    let shared = fresh();
    assert_eq!(shared.observe(), (angle(0.0), false));
    assert_eq!(shared.board().clocks, 8_000_000);
    assert!(!shared.holds(Resource::Board));
    assert!(!shared.holds(Resource::BearingNorth));
    assert!(!shared.holds(Resource::StepperEnabled));
}

#[test]
fn the_bearing_is_written_and_read_inside_its_lock() {
    let mut shared = fresh();
    assert!(shared.start(Task::UpdateBearing));
    shared.lock(Resource::Board);
    shared.lock(Resource::BearingNorth);
    assert!(shared.holds(Resource::BearingNorth));
    shared.set_bearing_north(angle(12.5));
    assert_eq!(shared.bearing_north(), angle(12.5));
    shared.unlock(Resource::BearingNorth);
    assert!(!shared.holds(Resource::BearingNorth));
    assert!(shared.holds(Resource::Board));
    shared.unlock(Resource::Board);
    shared.finish();
    assert_eq!(shared.observe(), (angle(12.5), false));
}

#[test]
fn the_flag_is_written_and_read_inside_its_lock() {
    let mut shared = fresh();
    assert!(shared.start(Task::EnableStepper));
    shared.lock(Resource::Board);
    shared.lock(Resource::StepperEnabled);
    assert!(!shared.stepper_enabled());
    shared.set_stepper_enabled(true);
    assert!(shared.stepper_enabled());
    shared.unlock(Resource::StepperEnabled);
    shared.unlock(Resource::Board);
    shared.finish();
    assert_eq!(shared.observe(), (angle(0.0), true));
}

#[test]
fn the_device_is_commanded_inside_its_lock() {
    let mut shared = fresh();
    assert!(shared.start(Task::UpdateDisplay));
    shared.lock(Resource::Board);
    shared.board_mut().led_on(LedId::Led7);
    assert_eq!(shared.board_mut().stepper_enable(), Ok(()));
    shared.unlock(Resource::Board);
    shared.finish();
    assert!(shared.board().leds.is_on(LedId::Led7));
    assert!(!shared.board().leds.is_on(LedId::Led3));
    assert!(shared.board().stepper.unwrap().pulsing);
}

#[test]
fn a_task_of_no_higher_priority_is_not_let_in() {
    let mut shared = fresh();
    assert!(shared.start(Task::UpdateBearing));
    assert!(!shared.start(Task::UpdateDisplay));
    assert!(!shared.start(Task::Orientate));
    shared.finish();
    assert!(shared.start(Task::Orientate));
    assert!(!shared.start(Task::DisableStepper));
    assert!(shared.start(Task::UpdateDisplay));
    shared.finish();
    shared.lock(Resource::BearingNorth);
    assert!(!shared.start(Task::UpdateDisplay));
    shared.unlock(Resource::BearingNorth);
    shared.finish();
}
