//! Tests of the interpolator.

use haptic_core::interpolation::{InterpolationParameters, Interpolator};
use haptic_core::model::AmplitudeBreakpoint;

fn amp(time: i64, amplitude: i64) -> AmplitudeBreakpoint {
    AmplitudeBreakpoint { time, amplitude, emphasis: None }
}

const Q_BITS: u32 = 8;
const MIN_TIME_STEP: i64 = 2500;

#[test]
fn check_interpolator_process_ramp_up_slow_attack() {
    let input_data = vec![amp(0, 0), amp(25000, 5000), amp(50000, 10000)];
    let interpolator = Interpolator::new(InterpolationParameters::new(Q_BITS, MIN_TIME_STEP));
    let result = interpolator.process(&input_data);
    let expected = vec![
        amp(0, 0),
        amp(2500, 500),
        amp(5000, 1000),
        amp(7500, 1500),
        amp(10000, 2000),
        amp(12500, 2500),
        amp(15000, 3000),
        amp(17500, 3500),
        amp(20000, 4000),
        amp(22500, 4500),
        amp(25000, 5000),
        amp(25000, 5000),
        amp(27500, 5500),
        amp(30000, 6000),
        amp(32500, 6500),
        amp(35000, 7000),
        amp(37500, 7500),
        amp(40000, 8000),
        amp(42500, 8500),
        amp(45000, 9000),
        amp(47500, 9500),
        amp(50000, 10000),
    ];
    assert_eq!(expected, result);
}

#[test]
fn check_emphasized_input() {
    let emphasized_clip = vec![
        amp(0, 20000),
        amp(10000, 30000),
        amp(19500, 20500),
        amp(19500, 0),
        amp(20000, 0),
        amp(20000, 80000),
        amp(21500, 80000),
        amp(21500, 24500),
        amp(30000, 50000),
        amp(50000, 50000),
    ];
    let expected = vec![
        amp(0, 20000),
        amp(2500, 22500),
        amp(5000, 25000),
        amp(7500, 27500),
        amp(10000, 30000),
        amp(10000, 30000),
        amp(13167, 26833),
        amp(16333, 23667),
        amp(19500, 20500),
        amp(19500, 20500),
        amp(19500, 0),
        amp(19500, 0),
        amp(20000, 0),
        amp(20000, 0),
        amp(20000, 80000),
        amp(20000, 80000),
        amp(21500, 80000),
        amp(21500, 80000),
        amp(21500, 24500),
        amp(21500, 24500),
        amp(24333, 33000),
        amp(27167, 41500),
        amp(30000, 50000),
        amp(30000, 50000),
        amp(50000, 50000),
    ];
    let interpolator = Interpolator::new(InterpolationParameters::new(Q_BITS, MIN_TIME_STEP));
    let actual = interpolator.process(&emphasized_clip);
    assert_eq!(actual, expected);
}

#[test]
fn check_negative_and_zero_input_interpolation_parameters() {
    let result_parameters = InterpolationParameters::new(8, -200000);
    let expected_parameters = InterpolationParameters { min_time_step: 0, q_depth: 256 };
    assert_eq!(result_parameters, expected_parameters);
}

#[test]
fn interpolation_disabled_keeps_endpoints() {
    // With interpolation off, every pair contributes just its endpoints.
    let input = vec![amp(0, 0), amp(100000, 100000)];
    let interpolator = Interpolator::new(InterpolationParameters::new(8, 0));
    let result = interpolator.process(&input);
    assert_eq!(result, vec![amp(0, 0), amp(100000, 100000)]);
}
