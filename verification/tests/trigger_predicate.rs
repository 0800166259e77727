use osci::sample::Sample;
use osci::trigger::{Trigger, TriggerMode};

fn at(value: f32) -> Sample {
    Sample::from_bits(value.to_bits())
}

fn trigger(mode: TriggerMode, level: f32, hold_time: u128) -> Trigger {
    Trigger { trigger_mode: mode, trigger_level: at(level), hold_time }
}

fn rising_reference(level: f32, prev: f32, value: f32) -> bool {
    value > prev && level >= prev && level < value
}

fn falling_reference(level: f32, prev: f32, value: f32) -> bool {
    prev > value && level >= value && level < prev
}

fn grid() -> Vec<f32> {
    vec![-2.0, -1.0, -0.5, -0.0, 0.0, 0.25, 0.5, 1.0, 2.0, f32::INFINITY, f32::NEG_INFINITY, f32::NAN]
}

#[test]
fn rising_edge_fires_when_level_lies_inside_the_step() {
    let rising = trigger(TriggerMode::RisingEdge, 0.0, 0);
    assert!(rising.edge_matches(at(-1.0), at(1.0)));
    assert!(rising.edge_matches(at(-0.001), at(0.001)));
    assert!(rising.edge_matches(at(f32::NEG_INFINITY), at(f32::INFINITY)));
}

#[test]
fn rising_edge_counts_the_lower_sample_on_the_level() {
    let rising = trigger(TriggerMode::RisingEdge, 0.5, 0);
    assert!(rising.edge_matches(at(0.5), at(1.0)));
    assert!(!rising.edge_matches(at(0.0), at(0.5)));
}

#[test]
fn rising_edge_never_fires_without_a_rise() {
    let rising = trigger(TriggerMode::RisingEdge, 0.0, 0);
    assert!(!rising.edge_matches(at(1.0), at(-1.0)));
    assert!(!rising.edge_matches(at(0.0), at(0.0)));
    assert!(!rising.edge_matches(at(1.0), at(1.0)));
    assert!(!rising.edge_matches(at(0.0), at(-0.0)));
    assert!(!rising.edge_matches(at(-1.0), at(-0.5)));
    assert!(!rising.edge_matches(at(0.5), at(1.0)));
}

#[test]
fn falling_edge_fires_when_level_lies_inside_the_step() {
    let falling = trigger(TriggerMode::FallingEdge, 0.0, 0);
    assert!(falling.edge_matches(at(1.0), at(-1.0)));
    assert!(falling.edge_matches(at(0.001), at(-0.001)));
}

#[test]
fn falling_edge_counts_the_lower_sample_on_the_level() {
    let falling = trigger(TriggerMode::FallingEdge, 0.5, 0);
    assert!(falling.edge_matches(at(1.0), at(0.5)));
    assert!(!falling.edge_matches(at(0.5), at(0.0)));
}

#[test]
fn falling_edge_never_fires_without_a_fall() {
    let falling = trigger(TriggerMode::FallingEdge, 0.0, 0);
    assert!(!falling.edge_matches(at(-1.0), at(1.0)));
    assert!(!falling.edge_matches(at(0.0), at(0.0)));
    assert!(!falling.edge_matches(at(-1.0), at(-1.0)));
    assert!(!falling.edge_matches(at(1.0), at(0.5)));
}

#[test]
fn edge_matches_agrees_with_the_comparisons_on_a_grid() {
    let values = grid();
    for &level in &values {
        for &prev in &values {
            for &value in &values {
                let rising = trigger(TriggerMode::RisingEdge, level, 0);
                let falling = trigger(TriggerMode::FallingEdge, level, 0);
                assert_eq!(
                    rising.edge_matches(at(prev), at(value)),
                    rising_reference(level, prev, value),
                    "rising {:?} {:?} {:?}",
                    level,
                    prev,
                    value
                );
                assert_eq!(
                    falling.edge_matches(at(prev), at(value)),
                    falling_reference(level, prev, value),
                    "falling {:?} {:?} {:?}",
                    level,
                    prev,
                    value
                );
            }
        }
    }
}

#[test]
fn sample_on_the_level_fires_once_over_two_steps() {
    let rising = trigger(TriggerMode::RisingEdge, 0.0, 0);
    let first = rising.edge_matches(at(-1.0), at(0.0));
    let second = rising.edge_matches(at(0.0), at(1.0));
    assert_eq!((first, second), (false, true));
    let falling = trigger(TriggerMode::FallingEdge, 0.0, 0);
    let first = falling.edge_matches(at(1.0), at(0.0));
    let second = falling.edge_matches(at(0.0), at(-1.0));
    assert_eq!((first, second), (true, false));
}

#[test]
fn not_a_number_never_fires() {
    for mode in [TriggerMode::RisingEdge, TriggerMode::FallingEdge] {
        assert!(!trigger(mode, 0.0, 0).edge_matches(at(f32::NAN), at(1.0)));
        assert!(!trigger(mode, 0.0, 0).edge_matches(at(-1.0), at(f32::NAN)));
        assert!(!trigger(mode, f32::NAN, 0).edge_matches(at(-1.0), at(1.0)));
        assert!(!trigger(mode, f32::NAN, 0).edge_matches(at(1.0), at(-1.0)));
    }
}

#[test]
fn hold_time_has_to_be_exceeded() {
    let held = trigger(TriggerMode::RisingEdge, 0.0, 100);
    assert!(!held.hold_time_passed(1_000, 1_000));
    assert!(!held.hold_time_passed(1_000, 1_099));
    assert!(!held.hold_time_passed(1_000, 1_100));
    assert!(held.hold_time_passed(1_000, 1_101));
}

#[test]
fn zero_hold_time_still_needs_time_to_pass() {
    let free = trigger(TriggerMode::RisingEdge, 0.0, 0);
    assert!(!free.hold_time_passed(7, 7));
    assert!(free.hold_time_passed(7, 8));
}

#[test]
fn clock_running_backwards_counts_as_no_time() {
    let free = trigger(TriggerMode::RisingEdge, 0.0, 0);
    assert!(!free.hold_time_passed(1_000, 999));
    assert!(!free.hold_time_passed(u128::MAX, 0));
}

#[test]
fn hold_time_at_the_limits_of_the_clock() {
    let longest = trigger(TriggerMode::RisingEdge, 0.0, u128::MAX);
    assert!(!longest.hold_time_passed(0, u128::MAX));
    let nearly = trigger(TriggerMode::RisingEdge, 0.0, u128::MAX - 1);
    assert!(nearly.hold_time_passed(0, u128::MAX));
}

#[test]
fn test_needs_both_the_edge_and_the_hold_time() {
    let rising = trigger(TriggerMode::RisingEdge, 0.0, 10);
    assert!(rising.test(0, 11, at(-1.0), at(1.0)));
    assert!(!rising.test(0, 10, at(-1.0), at(1.0)));
    assert!(!rising.test(0, 11, at(1.0), at(-1.0)));
    assert!(!rising.test(0, 5, at(1.0), at(-1.0)));
    let falling = trigger(TriggerMode::FallingEdge, 0.0, 10);
    assert!(falling.test(0, 11, at(1.0), at(-1.0)));
    assert!(!falling.test(0, 11, at(-1.0), at(1.0)));
}
