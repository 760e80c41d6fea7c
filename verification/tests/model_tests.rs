//! Tests of validation, truncation, interpolation arithmetic and versions.

use haptic_core::fixed::interpolate;
use haptic_core::model::{
    AmplitudeBreakpoint, DataModel, Emphasis, Envelopes, FrequencyBreakpoint, MetaData,
    SignalContinuous, Signals, Validation,
};
use haptic_core::version::Version;

fn bp(time: i64, amplitude: i64) -> AmplitudeBreakpoint {
    AmplitudeBreakpoint { time, amplitude, emphasis: None }
}

fn fbp(time: i64, frequency: i64) -> FrequencyBreakpoint {
    FrequencyBreakpoint { time, frequency }
}

fn clip(
    amps: Vec<AmplitudeBreakpoint>,
    freqs: Option<Vec<FrequencyBreakpoint>>,
) -> DataModel {
    DataModel {
        version: Version { major: 1, minor: 0, patch: 0 },
        metadata: MetaData {
            editor: String::new(),
            author: String::new(),
            source: String::new(),
            project: String::new(),
            tags: Vec::new(),
            description: String::new(),
        },
        signals: Signals {
            continuous: SignalContinuous { envelopes: Envelopes { amplitude: amps, frequency: freqs } },
        },
    }
}

#[test]
fn version_cmp() {
    assert!(
        Version { major: 2, minor: 0, patch: 0 } > Version { major: 1, minor: 0, patch: 0 }
    );
    assert!(
        Version { major: 2, minor: 1, patch: 0 } > Version { major: 2, minor: 0, patch: 0 }
    );
    assert!(
        Version { major: 2, minor: 2, patch: 0 } == Version { major: 2, minor: 2, patch: 0 }
    );
    assert!(
        Version { major: 1, minor: 2, patch: 1 } < Version { major: 1, minor: 2, patch: 2 }
    );
}

#[test]
fn interpolate_midpoints() {
    assert_eq!(interpolate(50000, 100000, 20000, 50000, 50000), 20000);
    assert_eq!(interpolate(50000, 100000, 20000, 50000, 75000), 35000);
    assert_eq!(interpolate(50000, 100000, 20000, 50000, 100000), 50000);
}

#[test]
fn check_validation_pass() {
    let c = clip(
        vec![bp(0, 20000), bp(10000, 30000), bp(20000, 20000), bp(30000, 50000)],
        Some(vec![fbp(10000, 99000), fbp(20000, 54000)]),
    );
    assert!(c.validate().is_ok());
}

#[test]
fn check_validation_fail_empty() {
    let c = clip(vec![], None);
    let err = c.validate().map(|_| ()).unwrap_err();
    assert!(err.contains("Amplitude envelope is empty"));
}

#[test]
fn check_validation_fail_range() {
    let c = clip(vec![bp(0, 20000), bp(10000, 150000)], None);
    let err = c.validate().map(|_| ()).unwrap_err();
    assert!(err.contains("Breakpoint amplitude out of range"));
}

#[test]
fn check_validation_fail_sequence() {
    let c = clip(vec![bp(10000, 20000), bp(0, 30000)], None);
    let err = c.validate().map(|_| ()).unwrap_err();
    assert!(err.contains("Breakpoint times not consecutive"));
}

#[test]
fn check_validation_fail_emphasis_amplitude_vs_signal_amplitude() {
    let c = clip(
        vec![
            bp(0, 20000),
            AmplitudeBreakpoint {
                time: 10000,
                amplitude: 50000,
                emphasis: Some(Emphasis { amplitude: 30000, frequency: 40000 }),
            },
        ],
        None,
    );
    let err = c.validate().map(|_| ()).unwrap_err();
    assert!(err.contains("Emphasis amplitude can't be lower than Envelope amplitude"));
}

#[test]
fn check_validation_fail_emphasis_amplitude_range() {
    let c = clip(
        vec![
            AmplitudeBreakpoint {
                time: 0,
                amplitude: 50000,
                emphasis: Some(Emphasis { amplitude: 130000, frequency: 40000 }),
            },
        ],
        None,
    );
    let err = c.validate().map(|_| ()).unwrap_err();
    assert!(err.contains("Emphasis amplitude out of range"));
}

#[test]
fn check_validation_fail_emphasis_frequency_range() {
    let c = clip(
        vec![
            AmplitudeBreakpoint {
                time: 0,
                amplitude: 50000,
                emphasis: Some(Emphasis { amplitude: 90000, frequency: -1 }),
            },
        ],
        None,
    );
    let err = c.validate().map(|_| ()).unwrap_err();
    assert!(err.contains("Emphasis frequency out of range"));
}

#[test]
fn check_validation_fail_frequency_range() {
    let c = clip(vec![bp(0, 20000)], Some(vec![fbp(0, 150000)]));
    let err = c.validate().map(|_| ()).unwrap_err();
    assert!(err.contains("Breakpoint frequency out of range"));
}

#[test]
fn check_validation_fail_frequency_sequence() {
    let c = clip(vec![bp(0, 20000)], Some(vec![fbp(10000, 50000), fbp(0, 50000)]));
    let err = c.validate().map(|_| ()).unwrap_err();
    assert!(err.contains("Breakpoint frequency times not consecutive"));
}

#[test]
fn truncate() {
    // Truncating in the middle of a pair inserts the interpolated initial
    // breakpoint and shifts everything to start at zero.
    let mut c = clip(
        vec![bp(0, 20000), bp(200000, 40000), bp(300000, 60000)],
        Some(vec![fbp(0, 90000), fbp(300000, 30000)]),
    );
    c.truncate_before(250000).unwrap();
    assert_eq!(
        c.signals.continuous.envelopes.amplitude,
        vec![bp(0, 50000), bp(50000, 60000)],
    );
    assert_eq!(
        c.signals.continuous.envelopes.frequency,
        Some(vec![fbp(0, 40000), fbp(50000, 30000)]),
    );
}

#[test]
fn truncate_after_end() {
    let mut c = clip(vec![bp(0, 20000), bp(200000, 40000)], None);
    assert_eq!(
        c.truncate_before(900000),
        Err("No amplitude breakpoint before the specified starting time".to_string())
    );
}

#[test]
fn truncate_2_breakpoints() {
    let mut c = clip(vec![bp(0, 20000), bp(100000, 40000)], None);
    c.truncate_before(50000).unwrap();
    assert_eq!(
        c.signals.continuous.envelopes.amplitude,
        vec![bp(0, 30000), bp(50000, 40000)],
    );
}

#[test]
fn truncate_1_breakpoint() {
    let mut c = clip(vec![bp(0, 20000)], None);
    assert_eq!(
        c.truncate_before(100000),
        Err("No amplitude breakpoint before the specified starting time".to_string())
    );
}

#[test]
fn truncate_empty_frequency_envelope_before() {
    let mut c = clip(vec![bp(0, 20000), bp(300000, 40000)], Some(vec![]));
    c.truncate_before(250000).unwrap();
    assert_eq!(c.signals.continuous.envelopes.frequency, None);
}

#[test]
fn truncate_empty_frequency_envelope_after() {
    // All frequency breakpoints lie before the cut: the envelope is dropped.
    let mut c = clip(
        vec![bp(0, 20000), bp(300000, 40000)],
        Some(vec![fbp(0, 90000), fbp(100000, 80000)]),
    );
    c.truncate_before(250000).unwrap();
    assert_eq!(c.signals.continuous.envelopes.frequency, None);
}

#[test]
fn truncate_at_existing_breakpoint_only_shifts() {
    // Truncation exactly at a breakpoint's time inserts nothing.
    let mut c = clip(vec![bp(0, 20000), bp(200000, 40000), bp(300000, 60000)], None);
    c.truncate_before(200000).unwrap();
    assert_eq!(
        c.signals.continuous.envelopes.amplitude,
        vec![bp(0, 40000), bp(100000, 60000)],
    );
    // a second truncation at the (shifted) same spot changes nothing more
    let mut again = c.clone();
    again.truncate_before(0).unwrap();
    assert_eq!(again.signals.continuous.envelopes.amplitude,
        c.signals.continuous.envelopes.amplitude);
}

#[test]
fn test_default_version() {
    assert_eq!(Version::default(), Version { major: 0, minor: 2, patch: 0 });
    assert_eq!(
        haptic_core::model::current_version(),
        Version { major: 1, minor: 0, patch: 0 }
    );
}
