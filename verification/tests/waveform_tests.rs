//! Tests of the waveform builder.

use haptic_core::model::AmplitudeBreakpoint;
use haptic_core::waveform::{create_waveform, Waveform, WaveformConversionParameters};

fn amp(time: i64, amplitude: i64) -> AmplitudeBreakpoint {
    AmplitudeBreakpoint { time, amplitude, emphasis: None }
}

#[test]
fn convert_interpolated_emphasized_clip() {
    let interpolated_emphasized_clip = vec![
        amp(0, 20000),
        amp(2500, 22500),
        amp(5000, 25000),
        amp(7500, 27500),
        amp(10000, 30000),
        amp(10000, 30000),
        amp(13167, 26833),
        amp(16333, 23667),
        amp(19500, 20500),
        amp(19500, 20500),
        amp(19500, 0),
        amp(19500, 0),
        amp(20000, 0),
        amp(20000, 0),
        amp(20000, 80000),
        amp(20000, 80000),
        amp(21500, 80000),
        amp(21500, 80000),
        amp(21500, 24500),
        amp(21500, 24500),
        amp(24333, 33000),
        amp(27167, 41500),
        amp(30000, 50000),
        amp(30000, 50000),
        amp(50000, 50000),
    ];
    let expected_waveform = create_waveform(&vec![
        (25, 51),
        (25, 57),
        (25, 64),
        (25, 70),
        (32, 77),
        (31, 68),
        (32, 60),
        (5, 0),
        (15, 204),
        (28, 62),
        (29, 84),
        (28, 106),
        (200, 128),
    ]);
    let actual_waveform = Waveform::from_breakpoints(
        &interpolated_emphasized_clip,
        WaveformConversionParameters { max_amplitude: 255 },
    );
    assert_eq!(expected_waveform, actual_waveform);
}

#[test]
fn convert_zero_duration_breakpoints() {
    let emphasized_clip = vec![
        amp(0, 0),
        amp(10000, 10000),
        amp(16000, 23333),
        amp(16000, 392),
        amp(19000, 392),
        amp(19000, 90000),
        amp(22000, 90000),
        amp(22000, 36667),
        amp(22000, 80000),
        amp(24000, 80000),
        amp(24000, 30000),
        amp(30000, 10000),
        amp(40000, 0),
    ];
    let expected_waveform = create_waveform(&vec![
        (100, 0),
        (60, 26),
        (30, 1),
        (30, 230),
        (20, 204),
        (60, 77),
        (100, 26),
    ]);
    let actual_waveform = Waveform::from_breakpoints(
        &emphasized_clip,
        WaveformConversionParameters { max_amplitude: 255 },
    );
    assert_eq!(expected_waveform, actual_waveform);
}

#[test]
fn close_breakpoints_rounding() {
    let breakpoints = vec![
        amp(0, 0),
        amp(100, 20000),
        amp(200, 0),
        amp(300, 20000),
        amp(400, 0),
    ];
    let actual_waveform = Waveform::from_breakpoints(
        &breakpoints,
        WaveformConversionParameters { max_amplitude: 255 },
    );
    let expected_waveform = create_waveform(&vec![(1, 0), (1, 51), (1, 0), (1, 51)]);
    assert_eq!(expected_waveform, actual_waveform);
}

#[test]
fn waveform_drift_stays_within_a_millisecond() {
    // Breakpoints 1.3 ms apart: two cells whose total stays within a
    // millisecond of the true end time of 2.6 ms.
    let breakpoints = vec![amp(0, 0), amp(130, 20000), amp(260, 0)];
    let w = Waveform::from_breakpoints(
        &breakpoints,
        WaveformConversionParameters { max_amplitude: 255 },
    );
    assert_eq!(w.timings, vec![1, 2]);
    let sum: i64 = w.timings.iter().sum();
    assert_eq!(sum, 3);
    assert!((sum * 100 - 260).abs() <= 50);
    assert!(w.timings.iter().all(|t| *t > 0));
}
