//! Tests of the legacy model's validation.

use haptic_core::model::Validation;
use haptic_core::v0::{Breakpoint, DataModel, MetaData, Voices};
use haptic_core::version::Version;

fn v0(envelopes: Vec<Vec<Breakpoint>>, transients: Vec<Vec<Breakpoint>>, duration: i64) -> DataModel {
    DataModel {
        version: Version { major: 0, minor: 2, patch: 0 },
        metadata: MetaData { editor: "Tester".to_string(), duration },
        voices: Voices { envelopes, transients },
    }
}

fn b(time: i64, amplitude: i64) -> Breakpoint {
    Breakpoint { time, amplitude }
}

#[test]
fn check_validation_fail_envelopes() {
    let err = v0(vec![], vec![], 10000).validate().map(|_| ()).unwrap_err();
    assert!(err.contains("Envelopes are empty"), "{}", err);
}

#[test]
fn check_validation_fail_amplitude_envelope_empty() {
    let err = v0(vec![vec![]], vec![], 10000).validate().map(|_| ()).unwrap_err();
    assert!(err.contains("Amplitude envelope is empty"), "{}", err);
}

#[test]
fn check_validation_pass_opz() {
    // an out-of-range amplitude is caught
    let err = v0(vec![vec![b(0, 150000)]], vec![], 10000).validate().map(|_| ()).unwrap_err();
    assert!(err.contains("Breakpoint amplitude out of range"), "{}", err);
}

#[test]
fn check_validation_pass_car() {
    // transient pair timestamps must match exactly
    let err = v0(
        vec![vec![b(0, 50000)]],
        vec![vec![b(1000, 80000)], vec![b(2000, 70000)]],
        10000,
    ).validate().map(|_| ()).unwrap_err();
    assert!(err.contains("Mismatch in Transient"), "{}", err);
}

#[test]
fn check_validation_fail_frequency_transients() {
    let err = v0(
        vec![vec![b(0, 50000)]],
        vec![vec![b(1000, 80000)]],
        10000,
    ).validate().map(|_| ()).unwrap_err();
    assert!(err.contains("Transients missing frequency point"), "{}", err);
}

#[test]
fn check_validation_fail_mismatch_transients() {
    let err = v0(
        vec![vec![b(0, 50000)]],
        vec![vec![b(1000, 80000), b(2000, 80000)], vec![b(1000, 70000)]],
        10000,
    ).validate().map(|_| ()).unwrap_err();
    assert!(err.contains("Transients missing pair"), "{}", err);
}

#[test]
fn check_validation_fail_times_not_consecutive() {
    let err = v0(vec![vec![b(5000, 50000), b(1000, 50000)]], vec![], 10000)
        .validate().map(|_| ()).unwrap_err();
    assert!(err.contains("Breakpoint times not consecutive"), "{}", err);
}

#[test]
fn check_validation_fail_time_beyond_duration() {
    let err = v0(vec![vec![b(0, 50000), b(20000, 50000)]], vec![], 10000)
        .validate().map(|_| ()).unwrap_err();
    assert!(err.contains("greater than the file duration"), "{}", err);
}

#[test]
fn check_validation_passes_valid_clip() {
    let ok = v0(
        vec![
            vec![b(0, 0), b(10000, 30000)],
            vec![b(0, 90000), b(10000, 60000)],
        ],
        vec![vec![b(10000, 80000)], vec![b(10000, 70000)]],
        10000,
    ).validate();
    assert!(ok.is_ok());
}
