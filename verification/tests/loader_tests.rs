//! Tests of loading clips from JSON text, across both schemas.

use haptic_core::loader::{from_json, latest_from_json, upgrade_to_latest, DataModel, VersionSupport};
use haptic_core::model::Validation;
use haptic_core::v0;
use haptic_core::version::Version;

fn valid_v1_json() -> String {
    r#"{
        "version": { "major": 1, "minor": 0, "patch": 0 },
        "metadata": { "editor": "VSCode", "author": "SDK Team" },
        "signals": { "continuous": { "envelopes": {
            "amplitude": [
                { "time": 0.0, "amplitude": 0.2 },
                { "time": 0.1, "amplitude": 0.3 },
                { "time": 0.2, "amplitude": 0.2 },
                { "time": 0.3, "amplitude": 0.5, "emphasis": { "amplitude": 0.69, "frequency": 0.7 } }
            ],
            "frequency": [
                { "time": 0.1, "frequency": 0.99 },
                { "time": 0.2, "frequency": 0.54 }
            ]
        } } }
    }"#.to_string()
}

fn valid_v0_json() -> String {
    r#"{
        "version": { "major": 0, "minor": 2, "patch": 0 },
        "metadata": { "editor": "Custom", "duration": 0.4 },
        "voices": {
            "envelopes": [
                [ { "time": 0.0, "amplitude": 0.0 }, { "time": 0.1, "amplitude": 0.3 }, { "time": 0.3, "amplitude": 0.2 } ],
                [ { "time": 0.0, "amplitude": 0.9 }, { "time": 0.3, "amplitude": 0.6 } ]
            ],
            "transients": [
                [ { "time": 0.1, "amplitude": 0.8 } ],
                [ { "time": 0.1, "amplitude": 0.7 } ]
            ]
        }
    }"#.to_string()
}

#[test]
fn test_valid_v1_from_json() {
    match from_json(&valid_v1_json()).unwrap() {
        DataModel::V1(data_v1) => assert_eq!(data_v1.version.major, 1),
        DataModel::V0(_) => panic!(),
    };
}

#[test]
fn test_invalid_version_v1_from_json() {
    let data = r#"{ "version": { "major": 2, "minor": 0, "patch": 0 }, "signals": {} }"#;
    assert_eq!(from_json(data).err(), Some("Unsupported version".to_string()));
}

#[test]
fn test_valid_v0_from_json() {
    match from_json(&valid_v0_json()).unwrap() {
        DataModel::V1(_) => panic!("Should be a valid V0 file"),
        DataModel::V0(data_v0) => assert_eq!(data_v0.version.major, 0),
    };
}

#[test]
fn test_invalid_v0_from_json() {
    let data = r#"{ "version": { "major": 0, "minor": 2, "patch": 0 } }"#;
    let err = from_json(data).map(|_| ()).unwrap_err();
    assert!(err.contains("Error deserializing V0"), "{}", err);
    assert!(err.contains("missing field `voices`"), "{}", err);
}

#[test]
fn test_validation_v0_from_json() {
    // A transient list with only one envelope fails the legacy validator.
    let data = r#"{
        "version": { "major": 0, "minor": 2, "patch": 0 },
        "metadata": { "editor": "", "duration": 0.4 },
        "voices": {
            "envelopes": [ [ { "time": 0.0, "amplitude": 0.5 } ] ],
            "transients": [ [ { "time": 0.1, "amplitude": 0.8 } ] ]
        }
    }"#;
    let err = from_json(data).map(|_| ()).unwrap_err();
    assert!(err.contains("Error validating V0"), "{}", err);
}

#[test]
fn test_validation_v1_from_json() {
    let data = r#"{
        "version": { "major": 1, "minor": 0, "patch": 0 },
        "signals": { "continuous": { "envelopes": {
            "amplitude": [ { "time": 0.0, "amplitude": 1.5 } ]
        } } }
    }"#;
    let err = from_json(data).map(|_| ()).unwrap_err();
    assert!(err.contains("Error validating V1"), "{}", err);
}

#[test]
fn check_test_json_deserialize_invalid_fields() {
    let data = r#"{ "version": { "major": 1, "minor": 0, "patch": 0 } }"#;
    let err = from_json(data).map(|_| ()).unwrap_err();
    assert!(err.contains("missing field `signals`"), "{}", err);
}

#[test]
fn check_test_json_deserialized_required_fields_only() {
    let data = r#"{
        "version": { "major": 1 },
        "signals": { "continuous": { "envelopes": {
            "amplitude": [ { "time": 0.0, "amplitude": 0.2 } ]
        } } }
    }"#;
    match from_json(data).unwrap() {
        DataModel::V1(c) => {
            assert_eq!(c.version, Version { major: 1, minor: 0, patch: 0 });
            assert_eq!(c.metadata.editor, "");
            assert_eq!(c.signals.continuous.envelopes.frequency, None);
            assert_eq!(c.signals.continuous.envelopes.amplitude[0].amplitude, 20000);
        },
        _ => panic!(),
    }
}

#[test]
fn test_latest_from_json() {
    let (support, c) = latest_from_json(&valid_v0_json()).unwrap();
    assert_eq!(support, VersionSupport::Full);
    assert_eq!(c.version, Version { major: 1, minor: 0, patch: 0 });
    let amps = &c.signals.continuous.envelopes.amplitude;
    // three envelope breakpoints plus the closing one at the clip duration
    assert_eq!(amps.len(), 4);
    assert_eq!(amps[3].time, 40000);
    assert_eq!(amps[3].amplitude, 20000);
    // the transient at 0.1 becomes the emphasis of the matching breakpoint
    let e = amps[1].emphasis.unwrap();
    assert_eq!(e.amplitude, 80000);
    assert_eq!(e.frequency, 70000);
    // the second envelope becomes the frequency envelope
    let freqs = c.signals.continuous.envelopes.frequency.as_ref().unwrap();
    assert_eq!(freqs.len(), 2);
    assert_eq!(freqs[0].frequency, 90000);
    assert_eq!(c.metadata.editor, "Custom");
}

#[test]
fn test_load_newer_minor_version() {
    let data = r#"{
        "version": { "major": 1, "minor": 7, "patch": 0 },
        "signals": { "continuous": { "envelopes": {
            "amplitude": [ { "time": 0.0, "amplitude": 0.2 } ]
        } } }
    }"#;
    let (support, _) = latest_from_json(data).unwrap();
    assert_eq!(support, VersionSupport::Partial);
}

#[test]
fn upgrade_keeps_version_support_full_for_current() {
    match from_json(&valid_v1_json()).unwrap() {
        dm @ DataModel::V1(_) => {
            let (support, _) = upgrade_to_latest(&dm).unwrap();
            assert_eq!(support, VersionSupport::Full);
        },
        _ => panic!(),
    }
}

#[test]
fn check_version_upgrade() {
    // Upgrading a validated legacy clip by hand matches the loader's result.
    let v0_clip = v0::DataModel {
        version: Version::default(),
        metadata: v0::MetaData { editor: "X".to_string(), duration: 40000 },
        voices: v0::Voices {
            envelopes: vec![
                vec![
                    v0::Breakpoint { time: 0, amplitude: 0 },
                    v0::Breakpoint { time: 10000, amplitude: 30000 },
                ],
                vec![v0::Breakpoint { time: 0, amplitude: 90000 }],
            ],
            transients: vec![],
        },
    };
    let validated = v0_clip.validate().unwrap();
    let v1 = validated.upgrade();
    let amps = &v1.signals.continuous.envelopes.amplitude;
    assert_eq!(amps.len(), 3);
    assert_eq!(amps[2].time, 40000);
    assert_eq!(amps[2].amplitude, 30000);
    assert!(v1.signals.continuous.envelopes.frequency.is_some());
}

#[test]
fn check_version_upgrade_transient_amplitude_breakpoint_mismatch() {
    // A transient without a matching amplitude breakpoint time is dropped.
    let v0_clip = v0::DataModel {
        version: Version::default(),
        metadata: v0::MetaData { editor: String::new(), duration: 40000 },
        voices: v0::Voices {
            envelopes: vec![vec![
                v0::Breakpoint { time: 0, amplitude: 0 },
                v0::Breakpoint { time: 10000, amplitude: 30000 },
            ]],
            transients: vec![
                vec![
                    v0::Breakpoint { time: 10000, amplitude: 80000 },
                    v0::Breakpoint { time: 15000, amplitude: 70000 },
                ],
                vec![
                    v0::Breakpoint { time: 10000, amplitude: 60000 },
                    v0::Breakpoint { time: 15000, amplitude: 50000 },
                ],
            ],
        },
    };
    let v1 = v0_clip.validate().unwrap().upgrade();
    let amps = &v1.signals.continuous.envelopes.amplitude;
    assert!(amps[1].emphasis.is_some());
    assert!(amps.iter().all(|b| b.time != 15000));
}

#[test]
fn loading_twice_gives_equal_clips() {
    // Loading is deterministic: the same text twice gives the same clip.
    let a = latest_from_json(&valid_v1_json()).unwrap().1;
    let b = latest_from_json(&valid_v1_json()).unwrap().1;
    assert_eq!(a, b);
}

#[test]
fn numbers_with_exponents_parse() {
    let data = r#"{
        "version": { "major": 1 },
        "signals": { "continuous": { "envelopes": {
            "amplitude": [ { "time": 1.3e-3, "amplitude": 2e-1 } ]
        } } }
    }"#;
    match from_json(data).unwrap() {
        DataModel::V1(c) => {
            assert_eq!(c.signals.continuous.envelopes.amplitude[0].time, 130);
            assert_eq!(c.signals.continuous.envelopes.amplitude[0].amplitude, 20000);
        },
        _ => panic!(),
    }
}

#[test]
fn test_major_zero_dispatches_to_legacy() {
    // Every major-0 file takes the legacy path, whatever its minor and
    // patch say.
    let data = r#"{
        "version": { "major": 0, "minor": 1, "patch": 7 },
        "metadata": { "editor": "older tool", "duration": 0.4 },
        "voices": {
            "envelopes": [ [ { "time": 0.0, "amplitude": 0.5 }, { "time": 0.4, "amplitude": 0.2 } ] ],
            "transients": []
        }
    }"#;
    match from_json(data).unwrap() {
        DataModel::V0(v0) => assert_eq!(v0.version.minor, 1),
        DataModel::V1(_) => panic!("major 0 must load as legacy"),
    }
}
