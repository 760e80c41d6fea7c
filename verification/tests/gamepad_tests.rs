//! Tests of the gamepad rumble conversion.

use haptic_core::gamepad::{convert_haptic_to_gamepad_rumble, extend_breakpoints, GamepadRumble};
use haptic_core::model::{
    AmplitudeBreakpoint, DataModel, Envelopes, FrequencyBreakpoint, MetaData, SignalContinuous,
    Signals,
};
use haptic_core::version::Version;

fn amp(time: i64, amplitude: i64) -> AmplitudeBreakpoint {
    AmplitudeBreakpoint { time, amplitude, emphasis: None }
}

fn check_extend_breakpoints(
    original: &[AmplitudeBreakpoint],
    timings: &[i64],
    expected: &[AmplitudeBreakpoint],
) {
    let actual = extend_breakpoints(&original.to_vec(), &timings.to_vec());
    assert_eq!(actual, expected);
}

#[test]
fn extend_breakpoints_corner_cases() {
    // No breakpoints
    check_extend_breakpoints(&[], &[100000], &[amp(100000, 0)]);

    // One breakpoint, with timings extended before, at and after it
    check_extend_breakpoints(
        &[amp(100000, 50000)],
        &[50000],
        &[amp(50000, 0), amp(100000, 50000)],
    );
    check_extend_breakpoints(&[amp(100000, 50000)], &[100000], &[amp(100000, 50000)]);
    check_extend_breakpoints(
        &[amp(100000, 50000)],
        &[150000],
        &[amp(100000, 50000), amp(150000, 50000)],
    );

    // Two breakpoints, extended in between with one breakpoint
    check_extend_breakpoints(
        &[amp(100000, 50000), amp(200000, 60000)],
        &[150000],
        &[amp(100000, 50000), amp(150000, 55000), amp(200000, 60000)],
    );

    // Two breakpoints, extended in between with two breakpoints
    check_extend_breakpoints(
        &[amp(100000, 50000), amp(200000, 60000)],
        &[150000, 170000],
        &[amp(100000, 50000), amp(150000, 55000), amp(170000, 57000), amp(200000, 60000)],
    );

    // Two breakpoints, with lots of extensions
    check_extend_breakpoints(
        &[amp(100000, 50000), amp(200000, 60000)],
        &[50000, 100000, 150000, 170000, 200000, 250000],
        &[
            amp(50000, 0),
            amp(100000, 50000),
            amp(150000, 55000),
            amp(170000, 57000),
            amp(200000, 60000),
            amp(250000, 60000),
        ],
    );
}

#[test]
fn gamepad_rumble_has_matching_motor_tracks() {
    let clip = DataModel {
        version: Version { major: 1, minor: 0, patch: 0 },
        metadata: MetaData {
            editor: String::new(),
            author: String::new(),
            source: String::new(),
            project: String::new(),
            tags: Vec::new(),
            description: String::new(),
        },
        signals: Signals {
            continuous: SignalContinuous {
                envelopes: Envelopes {
                    amplitude: vec![amp(0, 0), amp(10000, 50000), amp(20000, 0)],
                    frequency: Some(vec![
                        FrequencyBreakpoint { time: 0, frequency: 90000 },
                        FrequencyBreakpoint { time: 15000, frequency: 30000 },
                    ]),
                },
            },
        },
    };
    let rumble: GamepadRumble = convert_haptic_to_gamepad_rumble(&clip).unwrap();
    assert_eq!(rumble.durations_ms.len(), rumble.low_frequency_motor_levels.len());
    assert_eq!(rumble.durations_ms.len(), rumble.high_frequency_motor_levels.len());
    assert!(rumble.durations_ms.iter().all(|d| *d > 0));
    assert!(rumble.low_frequency_motor_levels.iter().all(|l| 0 <= *l && *l <= 255));
    assert!(rumble.high_frequency_motor_levels.iter().all(|l| 0 <= *l && *l <= 255));
    assert!(rumble.durations_ms.len() > 0);
}
