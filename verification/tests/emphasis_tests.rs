//! Tests of the emphasis renderer. Times and values are in fixed-point
//! units: 100000 units per second and per 1.0 of amplitude.

use haptic_core::emphasis::{emphasize, EmphasisParameters};
use haptic_core::model::{AmplitudeBreakpoint, Emphasis};

fn amp(time: i64, amplitude: i64) -> AmplitudeBreakpoint {
    AmplitudeBreakpoint { time, amplitude, emphasis: None }
}

fn emp(time: i64, amplitude: i64, e_amp: i64, e_freq: i64) -> AmplitudeBreakpoint {
    AmplitudeBreakpoint {
        time,
        amplitude,
        emphasis: Some(Emphasis { amplitude: e_amp, frequency: e_freq }),
    }
}

fn params(before: i64, length: i64, after: i64, duck: i64) -> EmphasisParameters {
    EmphasisParameters {
        ducking_before_length: before,
        emphasis_length: length,
        ducking_after_length: after,
        ducking_amplitude: duck,
    }
}

#[test]
fn no_emphasis() {
    let clip = vec![amp(0, 50000), amp(20000, 20000), amp(30000, 30000), amp(40000, 40000)];
    let emphasized_clip = emphasize(&clip, Default::default());
    assert_eq!(clip, emphasized_clip);
}

#[test]
fn simple_emphasis() {
    let clip = vec![
        amp(0, 20000),
        amp(10000, 30000),
        emp(20000, 20000, 80000, 70000),
        amp(30000, 50000),
        amp(50000, 50000),
    ];
    let actual = emphasize(&clip, params(500, 1500, 500, 431));
    let expected = vec![
        amp(0, 20000),
        amp(10000, 30000),
        amp(19500, 20500),
        amp(19500, 431),
        amp(20000, 431),
        amp(20000, 100000),
        amp(21500, 100000),
        amp(21500, 431),
        amp(22000, 431),
        amp(22000, 26000),
        amp(30000, 50000),
        amp(50000, 50000),
    ];
    assert_eq!(actual, expected);
}

#[test]
fn breakpoints_close_to_emphasis() {
    let clip = vec![
        amp(0, 0),
        amp(10000, 10000),
        amp(19500, 40000), // inside of the ducking area before the emphasis
        emp(20000, 20000, 80000, 70000),
        amp(20500, 40000), // inside of the emphasis area
        amp(21700, 70000), // inside of the ducking area after the emphasis
        amp(30000, 20000),
        amp(40000, 0),
    ];
    let actual = emphasize(&clip, params(500, 1500, 500, 431));
    // The breakpoint at the exact start of the ducking region falls inside
    // it and is skipped; the region start then carries the interpolated
    // envelope value, which equals that breakpoint's.
    let expected = vec![
        amp(0, 0),
        amp(10000, 10000),
        amp(19500, 40000),
        amp(19500, 431),
        amp(20000, 431),
        amp(20000, 100000),
        amp(21500, 100000),
        amp(21500, 431),
        amp(22000, 431),
        amp(22000, 68193),
        amp(30000, 20000),
        amp(40000, 0),
    ];
    assert_eq!(actual, expected);
}

#[test]
fn two_emphasis_breakpoints_close_1() {
    let clip = vec![
        amp(0, 0),
        amp(10000, 10000),
        emp(19000, 30000, 90000, 70000),
        emp(21000, 40000, 80000, 70000),
        amp(30000, 10000),
        amp(40000, 0),
    ];
    let actual = emphasize(&clip, params(3000, 3000, 3000, 431));
    let expected = vec![
        amp(0, 0),
        amp(10000, 10000),
        amp(16000, 23333),
        amp(16000, 431),
        amp(19000, 431),
        amp(19000, 100000),
        amp(22000, 100000),
        amp(22000, 431),
        amp(25000, 431),
        amp(25000, 26667),
        amp(30000, 10000),
        amp(40000, 0),
    ];
    assert_eq!(actual, expected);
}

#[test]
fn two_emphasis_breakpoints_close_2() {
    let clip = vec![
        amp(0, 0),
        amp(10000, 10000),
        emp(19000, 30000, 90000, 70000),
        emp(23000, 40000, 80000, 70000),
        amp(30000, 10000),
        amp(40000, 0),
    ];
    let actual = emphasize(&clip, params(500, 3000, 500, 431));
    let expected = vec![
        amp(0, 0),
        amp(10000, 10000),
        amp(18500, 28889),
        amp(18500, 431),
        amp(19000, 431),
        amp(19000, 100000),
        amp(22000, 100000),
        amp(22000, 431),
        amp(22500, 431),
        // The spike back to the envelope here lasts 0 time units; a waveform
        // conversion drops it, so it causes no harm.
        amp(22500, 38750),
        amp(22500, 38750),
        amp(22500, 431),
        amp(23000, 431),
        amp(23000, 100000),
        amp(26000, 100000),
        amp(26000, 431),
        amp(26500, 431),
        amp(26500, 25000),
        amp(30000, 10000),
        amp(40000, 0),
    ];
    assert_eq!(actual, expected);
}

#[test]
fn two_emphasis_breakpoints_close_3() {
    let clip = vec![
        amp(0, 0),
        amp(10000, 10000),
        emp(19000, 30000, 90000, 70000),
        emp(23000, 40000, 80000, 70000),
        amp(30000, 10000),
        amp(40000, 0),
    ];
    let actual = emphasize(&clip, params(500, 3000, 2000, 431));
    let expected = vec![
        amp(0, 0),
        amp(10000, 10000),
        amp(18500, 28889),
        amp(18500, 431),
        amp(19000, 431),
        amp(19000, 100000),
        amp(22000, 100000),
        amp(22000, 431),
        amp(24000, 431),
        amp(24000, 35714),
        amp(24000, 100000),
        amp(26000, 100000),
        amp(26000, 431),
        amp(28000, 431),
        amp(28000, 18571),
        amp(30000, 10000),
        amp(40000, 0),
    ];
    assert_eq!(actual, expected);
}

#[test]
fn nine_emphasis_breakpoints_close() {
    let clip = vec![
        amp(0, 0),
        emp(11000, 40000, 90000, 70000),
        emp(12000, 40000, 90000, 70000),
        emp(13000, 40000, 90000, 70000),
        emp(14000, 40000, 90000, 70000),
        emp(15000, 40000, 90000, 70000),
        emp(16000, 40000, 90000, 70000),
        emp(17000, 40000, 90000, 70000),
        emp(18000, 40000, 90000, 70000),
        emp(19000, 40000, 90000, 70000),
        amp(30000, 0),
    ];
    let actual = emphasize(&clip, params(1000, 1000, 1000, 431));
    let expected = vec![
        amp(0, 0),
        amp(10000, 36364),
        amp(10000, 431),
        amp(11000, 431),
        amp(11000, 100000),
        amp(12000, 100000),
        amp(12000, 431),
        amp(13000, 431),
        amp(13000, 40000),
        amp(13000, 100000),
        amp(14000, 100000),
        amp(14000, 431),
        amp(15000, 431),
        amp(15000, 40000),
        amp(15000, 100000),
        amp(16000, 100000),
        amp(16000, 431),
        amp(17000, 431),
        amp(17000, 40000),
        amp(17000, 100000),
        amp(18000, 100000),
        amp(18000, 431),
        amp(19000, 431),
        amp(19000, 40000),
        amp(19000, 100000),
        amp(20000, 100000),
        amp(20000, 431),
        amp(21000, 431),
        amp(21000, 32727),
        amp(30000, 0),
    ];
    assert_eq!(actual, expected);
}

#[test]
fn emphasis_on_first_breakpoint() {
    let clip = vec![emp(0, 30000, 90000, 70000), amp(10000, 20000), amp(20000, 0)];
    let actual = emphasize(&clip, params(3000, 500, 3000, 431));
    let expected = vec![
        amp(0, 100000),
        amp(500, 100000),
        amp(500, 431),
        amp(3500, 431),
        amp(3500, 26500),
        amp(10000, 20000),
        amp(20000, 0),
    ];
    assert_eq!(actual, expected);
}

#[test]
fn emphasis_on_last_breakpoint() {
    let clip = vec![amp(0, 30000), amp(10000, 20000), emp(20000, 40000, 90000, 70000)];
    let actual = emphasize(&clip, params(3000, 500, 3000, 431));
    let expected = vec![
        amp(0, 30000),
        amp(10000, 20000),
        amp(17000, 34000),
        amp(17000, 431),
        amp(20000, 431),
        amp(20000, 100000),
        amp(20500, 100000),
    ];
    assert_eq!(actual, expected);
}

#[test]
fn emphasized_output_validates_as_clip() {
    // Rendering emphasis into a valid clip yields an envelope that the
    // validator accepts again.
    let clip = vec![
        amp(0, 20000),
        emp(10000, 30000, 80000, 70000),
        amp(20000, 20000),
        emp(30000, 40000, 90000, 60000),
        amp(50000, 0),
    ];
    let emphasized = emphasize(&clip, params(3000, 3000, 3000, 431));
    let as_clip = haptic_core::model::DataModel {
        version: haptic_core::version::Version { major: 1, minor: 0, patch: 0 },
        metadata: haptic_core::model::MetaData {
            editor: String::new(),
            author: String::new(),
            source: String::new(),
            project: String::new(),
            tags: Vec::new(),
            description: String::new(),
        },
        signals: haptic_core::model::Signals {
            continuous: haptic_core::model::SignalContinuous {
                envelopes: haptic_core::model::Envelopes {
                    amplitude: emphasized,
                    frequency: None,
                },
            },
        },
    };
    assert!(as_clip.validated().is_ok());
}
