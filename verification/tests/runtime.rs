use orient::angle::Angle;
use orient::compass::Compass;
use orient::leds::LedId;
use orient::stepper::{CircularDirection, Stepper};
use orient::task::Task;
use orient::cadence::{
    ORIENTATE_PERIOD, ORIENTATE_START, UPDATE_BEARING_PERIOD, UPDATE_BEARING_START,
};
use orient::tasks::{idle, init, Runtime};
use orient::{ConfiguredDevice, Error};

const RING: [LedId; 8] = [
    LedId::Led3,
    LedId::Led5,
    LedId::Led7,
    LedId::Led9,
    LedId::Led10,
    LedId::Led8,
    LedId::Led6,
    LedId::Led4,
];

fn angle(value: f32) -> Angle {
    Angle::from_bits(value.to_bits())
}

fn full_device() -> ConfiguredDevice {
    ConfiguredDevice::new(8_000_000, Ok(Compass::new()), Ok(Stepper::new(200)))
}

fn lit(rt: &Runtime) -> Vec<LedId> {
    RING.iter().copied().filter(|id| rt.board().leds.is_on(*id)).collect()
}

/// Dispatches until nothing is ready and returns the tasks that ran, the
/// deciding task once for each of its two sections.
fn settle(rt: &mut Runtime, heading: f32) -> Vec<Task> {
    let mut ran = Vec::new();
    while let Some(task) = rt.dispatch(angle(heading)) {
        ran.push(task);
    }
    ran
}

#[test]
fn the_cadences() {
    assert_eq!(UPDATE_BEARING_START, 1_000);
    assert_eq!(ORIENTATE_START, 3_000);
    assert_eq!(UPDATE_BEARING_PERIOD, 100);
    assert_eq!(ORIENTATE_PERIOD, 250);
}

#[test]
fn start_up_state() {
    let rt = init(full_device());
    assert_eq!(rt.now(), 0);
    assert_eq!(rt.fault(), None);
    assert_eq!(rt.peek(), None);
    assert_eq!(rt.bearing_north(), angle(0.0));
    assert!(!rt.stepper_enabled());
    assert_eq!(lit(&rt), Vec::new());
    assert_eq!(idle(&rt), Some(1_000));
    assert_eq!(rt.board().stepper, Some(Stepper::new(200)));
}

#[test]
fn the_first_sample_is_taken_after_one_second() {
    let mut rt = init(full_device());
    assert_eq!(rt.dispatch(angle(0.0)), None);
    rt.advance(999);
    assert_eq!(rt.peek(), None);
    assert_eq!(idle(&rt), Some(1_000));
    rt.advance(1_000);
    assert_eq!(rt.peek(), Some(Task::UpdateBearing));
    assert_eq!(idle(&rt), Some(1_000));
    assert_eq!(rt.dispatch(angle(-45.0)), Some(Task::UpdateBearing));
    assert_eq!(rt.bearing_north(), angle(45.0));
    assert_eq!(lit(&rt), Vec::new());
    assert_eq!(rt.peek(), Some(Task::UpdateDisplay));
    assert_eq!(rt.dispatch(angle(99.0)), Some(Task::UpdateDisplay));
    assert_eq!(lit(&rt), vec![LedId::Led5]);
    assert_eq!(rt.peek(), None);
    assert_eq!(idle(&rt), Some(1_100));
}

#[test]
fn the_sensor_is_sampled_every_100_ticks() {
    let mut rt = init(full_device());
    let mut samples = 0;
    let mut now = 0;
    while now < 2_950 {
        now += 10;
        rt.advance(now);
        let ran = settle(&mut rt, 0.0);
        if ran.is_empty() {
            assert!(now < 1_000 || now % 100 != 0, "nothing ran at {}", now);
        } else {
            assert_eq!(ran, vec![Task::UpdateBearing, Task::UpdateDisplay], "at {}", now);
            assert_eq!(now % 100, 0);
            assert!(now >= 1_000);
            samples += 1;
        }
    }
    assert_eq!(samples, 20);
}

#[test]
fn the_first_decision_is_taken_after_three_seconds_and_then_every_250_ticks() {
    let mut rt = init(full_device());
    let mut decisions = Vec::new();
    let mut now = 0;
    while now < 4_000 {
        now += 10;
        rt.advance(now);
        let ran = settle(&mut rt, 0.0);
        if ran.contains(&Task::Orientate) {
            decisions.push(now);
        }
    }
    assert_eq!(decisions, vec![3_000, 3_250, 3_500, 3_750, 4_000]);
}

#[test]
fn high_priority_runs_before_low_priority() {
    let mut rt = init(full_device());
    rt.advance(3_000);
    assert_eq!(
        settle(&mut rt, 0.0),
        vec![
            Task::UpdateBearing,
            Task::UpdateDisplay,
            Task::Orientate,
            Task::Orientate,
            Task::DisableStepper
        ]
    );
    assert_eq!(idle(&rt), Some(3_100));
}

#[test]
fn a_bearing_beyond_the_threshold_starts_the_actuator() {
    let mut rt = init(full_device());
    rt.advance(3_000);
    // A heading of -31 degrees is a bearing of 31 degrees.
    assert_eq!(
        settle(&mut rt, -31.0),
        vec![
            Task::UpdateBearing,
            Task::UpdateDisplay,
            Task::Orientate,
            Task::Orientate,
            Task::EnableStepper
        ]
    );
    assert_eq!(rt.bearing_north(), angle(31.0));
    assert!(rt.stepper_enabled());
    let stepper = rt.board().stepper.unwrap();
    assert!(stepper.pulsing);
    assert_eq!(stepper.direction(), CircularDirection::CCW);
    assert_eq!(stepper.duty, 100);
    assert_eq!(lit(&rt), vec![LedId::Led5]);
}

#[test]
fn a_negative_bearing_turns_clockwise() {
    let mut rt = init(full_device());
    rt.advance(3_000);
    settle(&mut rt, 31.0);
    assert_eq!(rt.bearing_north(), angle(-31.0));
    assert!(rt.stepper_enabled());
    let stepper = rt.board().stepper.unwrap();
    assert!(stepper.pulsing);
    assert_eq!(stepper.direction(), CircularDirection::CW);
    assert_eq!(lit(&rt), vec![LedId::Led4]);
}

#[test]
fn a_bearing_within_the_threshold_stops_the_actuator() {
    let mut rt = init(full_device());
    rt.advance(3_000);
    settle(&mut rt, -90.0);
    assert!(rt.stepper_enabled());
    assert!(rt.board().stepper.unwrap().pulsing);
    rt.advance(3_200);
    assert_eq!(settle(&mut rt, -10.0), vec![Task::UpdateBearing, Task::UpdateDisplay]);
    assert!(rt.stepper_enabled());
    rt.advance(3_250);
    assert_eq!(
        settle(&mut rt, -10.0),
        vec![Task::Orientate, Task::Orientate, Task::DisableStepper]
    );
    assert!(!rt.stepper_enabled());
    let stepper = rt.board().stepper.unwrap();
    assert!(!stepper.pulsing);
    assert_eq!(stepper.direction(), CircularDirection::CCW);
    assert_eq!(lit(&rt), vec![LedId::Led3]);
}

#[test]
fn the_actuator_changes_direction_while_running() {
    let mut rt = init(full_device());
    rt.advance(3_000);
    settle(&mut rt, -90.0);
    assert_eq!(rt.board().stepper.unwrap().direction(), CircularDirection::CCW);
    rt.advance(3_200);
    settle(&mut rt, 90.0);
    assert_eq!(rt.board().stepper.unwrap().direction(), CircularDirection::CCW);
    rt.advance(3_250);
    assert_eq!(
        settle(&mut rt, 90.0),
        vec![Task::Orientate, Task::Orientate, Task::EnableStepper]
    );
    let stepper = rt.board().stepper.unwrap();
    assert!(stepper.pulsing);
    assert_eq!(stepper.direction(), CircularDirection::CW);
}

#[test]
fn a_late_clock_runs_each_periodic_task_once() {
    let mut rt = init(full_device());
    rt.advance(10_000);
    let round = vec![
        Task::UpdateBearing,
        Task::UpdateDisplay,
        Task::Orientate,
        Task::Orientate,
        Task::DisableStepper,
    ];
    assert_eq!(settle(&mut rt, 0.0), round);
    assert_eq!(idle(&rt), Some(10_100));
    rt.advance(10_250);
    assert_eq!(settle(&mut rt, 0.0), round);
}

#[test]
fn a_sample_preempts_the_deciding_task_between_its_sections() {
    let mut rt = init(full_device());
    rt.advance(3_000);
    assert_eq!(rt.dispatch(angle(-90.0)), Some(Task::UpdateBearing));
    assert_eq!(rt.dispatch(angle(-90.0)), Some(Task::UpdateDisplay));
    // The decision is taken on a bearing of 90 degrees.
    assert_eq!(rt.dispatch(angle(-90.0)), Some(Task::Orientate));
    assert_eq!(rt.peek(), Some(Task::Orientate));
    assert_eq!(idle(&rt), Some(3_000));
    // The next sample falls due before the decision is passed on.
    rt.advance(3_100);
    assert_eq!(rt.peek(), Some(Task::UpdateBearing));
    assert_eq!(rt.dispatch(angle(0.0)), Some(Task::UpdateBearing));
    assert_eq!(rt.dispatch(angle(0.0)), Some(Task::UpdateDisplay));
    assert_eq!(lit(&rt), vec![LedId::Led3]);
    assert!(!rt.stepper_enabled());
    // The deciding task runs on, with the decision it took.
    assert_eq!(rt.dispatch(angle(0.0)), Some(Task::Orientate));
    assert_eq!(rt.dispatch(angle(0.0)), Some(Task::EnableStepper));
    assert!(rt.stepper_enabled());
    assert_eq!(rt.board().stepper.unwrap().direction(), CircularDirection::CCW);
    assert_eq!(rt.dispatch(angle(0.0)), None);
    // The next decision is due 250 ticks after the decision was passed on.
    rt.advance(3_349);
    assert_eq!(settle(&mut rt, 0.0), vec![Task::UpdateBearing, Task::UpdateDisplay]);
    rt.advance(3_350);
    assert_eq!(
        settle(&mut rt, 0.0),
        vec![Task::Orientate, Task::Orientate, Task::DisableStepper]
    );
}

#[test]
fn a_fault_in_a_preempting_task_stops_the_preempted_task_too() {
    let mut rt = init(full_device());
    rt.advance(3_000);
    assert_eq!(rt.dispatch(angle(-90.0)), Some(Task::UpdateBearing));
    assert_eq!(rt.dispatch(angle(-90.0)), Some(Task::UpdateDisplay));
    assert_eq!(rt.dispatch(angle(-90.0)), Some(Task::Orientate));
    rt.advance(3_100);
    assert_eq!(rt.dispatch(angle(f32::NAN)), Some(Task::UpdateBearing));
    assert_eq!(rt.dispatch(angle(0.0)), Some(Task::UpdateDisplay));
    assert_eq!(rt.fault(), Some(Error::OutOfRange));
    assert_eq!(rt.peek(), None);
    assert_eq!(rt.dispatch(angle(0.0)), None);
    assert!(!rt.stepper_enabled());
    assert_eq!(lit(&rt), Vec::new());
}

#[test]
fn a_sample_that_waits_is_shown_before_the_next_is_taken() {
    let mut rt = init(full_device());
    rt.advance(1_000);
    assert_eq!(rt.dispatch(angle(-90.0)), Some(Task::UpdateBearing));
    // The processor was busy elsewhere until the next sample fell due.
    rt.advance(1_100);
    assert_eq!(rt.dispatch(angle(0.0)), Some(Task::UpdateDisplay));
    assert_eq!(lit(&rt), vec![LedId::Led7]);
    assert_eq!(rt.dispatch(angle(0.0)), Some(Task::UpdateBearing));
    assert_eq!(rt.dispatch(angle(0.0)), Some(Task::UpdateDisplay));
    assert_eq!(lit(&rt), vec![LedId::Led3]);
}

#[test]
fn without_a_compass_the_first_sample_is_a_fault() {
    let device = ConfiguredDevice::new(8_000_000, Err(Error::Hardware), Ok(Stepper::new(200)));
    let mut rt = init(device);
    rt.advance(999);
    assert_eq!(rt.fault(), None);
    rt.advance(1_000);
    assert_eq!(rt.dispatch(angle(0.0)), Some(Task::UpdateBearing));
    assert_eq!(rt.fault(), Some(Error::MissingCapability));
    assert_eq!(rt.peek(), None);
    assert_eq!(idle(&rt), None);
    assert_eq!(rt.dispatch(angle(0.0)), None);
    rt.advance(5_000);
    assert_eq!(rt.peek(), None);
    assert_eq!(rt.dispatch(angle(0.0)), None);
    assert_eq!(rt.fault(), Some(Error::MissingCapability));
    assert_eq!(rt.bearing_north(), angle(0.0));
    assert_eq!(lit(&rt), Vec::new());
}

#[test]
fn without_a_stepper_the_first_command_is_a_fault() {
    let device = ConfiguredDevice::new(8_000_000, Ok(Compass::new()), Err(Error::Hardware));
    let mut rt = init(device);
    rt.advance(2_900);
    settle(&mut rt, -100.0);
    assert_eq!(rt.fault(), None);
    assert_eq!(lit(&rt), vec![LedId::Led7]);
    rt.advance(3_000);
    assert_eq!(
        settle(&mut rt, -100.0),
        vec![
            Task::UpdateBearing,
            Task::UpdateDisplay,
            Task::Orientate,
            Task::Orientate,
            Task::EnableStepper
        ]
    );
    assert_eq!(rt.fault(), Some(Error::MissingCapability));
    assert!(!rt.stepper_enabled());
    rt.advance(3_100);
    assert_eq!(rt.dispatch(angle(0.0)), None);
    assert_eq!(lit(&rt), vec![LedId::Led7]);
}

#[test]
fn without_a_stepper_stopping_is_a_fault_too() {
    let device = ConfiguredDevice::new(8_000_000, Ok(Compass::new()), Err(Error::Hardware));
    let mut rt = init(device);
    rt.advance(3_000);
    assert_eq!(
        settle(&mut rt, 5.0),
        vec![
            Task::UpdateBearing,
            Task::UpdateDisplay,
            Task::Orientate,
            Task::Orientate,
            Task::DisableStepper
        ]
    );
    assert_eq!(rt.fault(), Some(Error::MissingCapability));
}

#[test]
fn a_bearing_off_the_circle_is_a_fault_at_the_display() {
    let mut rt = init(full_device());
    rt.advance(1_000);
    settle(&mut rt, 90.0);
    assert_eq!(lit(&rt), vec![LedId::Led6]);
    rt.advance(1_100);
    // A heading of -180 degrees is a bearing of 180 degrees.
    assert_eq!(rt.dispatch(angle(-180.0)), Some(Task::UpdateBearing));
    assert_eq!(rt.fault(), None);
    assert_eq!(rt.bearing_north(), angle(180.0));
    assert_eq!(rt.dispatch(angle(0.0)), Some(Task::UpdateDisplay));
    assert_eq!(rt.fault(), Some(Error::OutOfRange));
    assert_eq!(lit(&rt), Vec::new());
    rt.advance(9_000);
    assert_eq!(rt.dispatch(angle(0.0)), None);
}

#[test]
fn the_fault_signal_blinks_only_after_a_fault() {
    let mut rt = init(full_device());
    assert_eq!(rt.flash_error(0), None);
    assert_eq!(lit(&rt), Vec::new());
    rt.advance(1_000);
    settle(&mut rt, f32::NAN);
    assert_eq!(rt.fault(), Some(Error::OutOfRange));
    assert_eq!(rt.flash_error(0), Some(800_000));
    assert_eq!(lit(&rt), vec![LedId::Led3]);
    assert_eq!(rt.flash_error(1), Some(800_000));
    assert_eq!(lit(&rt), Vec::new());
    assert_eq!(rt.flash_error(2), Some(800_000));
    assert_eq!(lit(&rt), vec![LedId::Led3]);
    assert_eq!(rt.fault(), Some(Error::OutOfRange));
    assert_eq!(rt.dispatch(angle(0.0)), None);
}

/// The ring after each sample of `headings`, with the clock moved in steps
/// of `step` ticks and `extra` idle dispatches after each step.
fn displays(headings: &[f32], step: u64, extra: usize) -> Vec<Vec<LedId>> {
    let mut rt = init(full_device());
    let mut shown = Vec::new();
    let mut now = 0;
    let mut taken = 0;
    while taken < headings.len() {
        now += step;
        rt.advance(now);
        while let Some(task) = rt.peek() {
            rt.dispatch(angle(headings[taken.min(headings.len() - 1)]));
            if task == Task::UpdateDisplay {
                shown.push(lit(&rt));
                taken += 1;
                if taken == headings.len() {
                    return shown;
                }
            }
        }
        for _ in 0..extra {
            assert_eq!(rt.dispatch(angle(0.0)), None);
        }
    }
    shown
}

#[test]
fn the_display_is_a_function_of_the_samples() {
    let headings: Vec<f32> = (0..60).map(|i| ((i * 37) % 360) as f32 - 179.5).collect();
    let expected: Vec<Vec<LedId>> = headings
        .iter()
        .map(|h| {
            let mut device = full_device();
            orient::display_bearing(&mut device, angle(-h)).unwrap();
            RING.iter().copied().filter(|id| device.leds.is_on(*id)).collect()
        })
        .collect();
    assert_eq!(displays(&headings, 100, 0), expected);
    assert_eq!(displays(&headings, 1, 0), expected);
    assert_eq!(displays(&headings, 50, 3), expected);
    assert_eq!(displays(&headings, 20, 1), expected);
    for shown in &expected {
        assert_eq!(shown.len(), 1);
    }
}
