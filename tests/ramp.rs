use slight::ramp::{set_brightness, BrightnessChange, Ramp, RampStep};

const SEC: u128 = 1_000_000_000;

fn writes(mut ramp: Ramp) -> Vec<RampStep> {
    let mut out = Vec::new();
    while let Some(step) = ramp.next() {
        out.push(step);
    }
    out
}

#[test]
fn set_to_eighty_percent_over_two_seconds() {
    // A device at 20 of 100, set to 80% over 2 s at 10 Hz: the duration is
    // for the full range, so the 60 levels take 1.2 s, in 12 writes.
    let change = set_brightness(20, 80, 2 * SEC, 100);
    assert_eq!(change, BrightnessChange::Ramp { target: 80, duration: 1_200_000_000 });
    let ramp = Ramp::new(20, 80, 100, 1_200_000_000, 10).unwrap();
    assert_eq!(ramp.steps, 12);
    assert_eq!(ramp.interval, 100_000_000);
    let steps = writes(ramp);
    assert_eq!(steps.len(), 12);
    for (i, step) in steps.iter().enumerate() {
        assert_eq!(step.due, (i as u128 + 1) * 100_000_000);
        assert_eq!(step.value, 20 + 5 * (i as u32 + 1));
    }
    assert_eq!(steps.last().unwrap().value, 80);
}

#[test]
fn full_range_over_two_seconds_takes_twenty_writes() {
    let change = set_brightness(0, 100, 2 * SEC, 100);
    assert_eq!(change, BrightnessChange::Ramp { target: 100, duration: 2 * SEC });
    let steps = writes(Ramp::new(0, 100, 100, 2 * SEC, 10).unwrap());
    let values: Vec<u32> = steps.iter().map(|s| s.value).collect();
    assert_eq!(values, (1..=20).map(|i| 5 * i).collect::<Vec<u32>>());
    assert_eq!(steps[19].due, 2 * SEC);
}

#[test]
fn steps_never_exceed_distance() {
    let ramp = Ramp::new(10, 13, 100, SEC, 100).unwrap();
    assert_eq!(ramp.steps, 3);
    let values: Vec<u32> = writes(ramp).iter().map(|s| s.value).collect();
    assert_eq!(values, vec![11, 12, 13]);
}

#[test]
fn at_least_one_step() {
    let ramp = Ramp::new(0, 50, 100, 1_000_000, 1).unwrap();
    assert_eq!(ramp.steps, 1);
    assert_eq!(ramp.interval, 1_000_000);
    assert_eq!(writes(ramp), vec![RampStep { value: 50, due: 1_000_000 }]);
}

#[test]
fn downward_ramp_is_non_increasing() {
    let values: Vec<u32> = writes(Ramp::new(80, 20, 100, SEC, 4).unwrap()).iter().map(|s| s.value).collect();
    assert_eq!(values, vec![65, 50, 35, 20]);
}

#[test]
fn uneven_ramp_is_monotonic_and_ends_on_target() {
    for (start, target) in [(3u32, 250u32), (250, 3), (0, 7), (7, 0)] {
        let ramp = Ramp::new(start, target, 255, 3 * SEC, 9).unwrap();
        assert!(1 <= ramp.steps && ramp.steps <= start.abs_diff(target));
        let values: Vec<u32> = writes(ramp).iter().map(|s| s.value).collect();
        assert_eq!(values.len(), ramp.steps as usize);
        for pair in values.windows(2) {
            if target >= start {
                assert!(pair[0] <= pair[1]);
            } else {
                assert!(pair[0] >= pair[1]);
            }
        }
        assert_eq!(*values.last().unwrap(), target);
    }
}

#[test]
fn target_is_clamped_to_max() {
    let ramp = Ramp::new(90, 200, 100, SEC, 10).unwrap();
    assert_eq!(ramp.target, 100);
    assert_eq!(writes(ramp).last().unwrap().value, 100);
}

#[test]
fn no_ramp_when_already_at_target() {
    assert_eq!(Ramp::new(5, 5, 100, SEC, 10), None);
    assert_eq!(Ramp::new(100, 300, 100, SEC, 10), None);
}

#[test]
fn finished_ramp_hands_out_nothing() {
    let mut ramp = Ramp::new(0, 1, 10, SEC, 1).unwrap();
    assert_eq!(ramp.next(), Some(RampStep { value: 1, due: SEC }));
    assert_eq!(ramp.next(), None);
    assert_eq!(ramp.done, 1);
}

#[test]
fn value_at_each_step() {
    let ramp = Ramp::new(0, 10, 10, SEC, 3).unwrap();
    assert_eq!(ramp.steps, 3);
    assert_eq!((ramp.value_at(1), ramp.value_at(2), ramp.value_at(3)), (3, 6, 10));
}

#[test]
fn immediate_changes() {
    assert_eq!(set_brightness(20, 80, 0, 100), BrightnessChange::Immediate(80));
    assert_eq!(set_brightness(20, 80, SEC, 0), BrightnessChange::Immediate(80));
    assert_eq!(set_brightness(20, 20, SEC, 100), BrightnessChange::Immediate(20));
    // A nanosecond scaled by 1/100 rounds down to nothing.
    assert_eq!(set_brightness(20, 21, 1, 100), BrightnessChange::Immediate(21));
}

#[test]
fn scaled_duration_is_proportional() {
    assert_eq!(
        set_brightness(90, 100, SEC, 30),
        BrightnessChange::Ramp { target: 100, duration: 333_333_333 }
    );
}
