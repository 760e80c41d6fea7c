//! Tests of the platform pattern exporter and of the waveform backend's
//! clip conversion.

use haptic_core::ahap::{
    convert_to_transient_and_continuous_ahaps, sqrt_units, Ahap, Event, Pattern,
};
use haptic_core::android::convert_clip_to_waveform;
use haptic_core::model::{
    AmplitudeBreakpoint, DataModel, Emphasis, Envelopes, FrequencyBreakpoint, MetaData,
    SignalContinuous, Signals,
};
use haptic_core::version::Version;

fn clip(
    amps: Vec<AmplitudeBreakpoint>,
    freqs: Option<Vec<FrequencyBreakpoint>>,
) -> DataModel {
    DataModel {
        version: Version { major: 1, minor: 0, patch: 0 },
        metadata: MetaData {
            editor: String::new(),
            author: "SDK Team".to_string(),
            source: String::new(),
            project: "Demo".to_string(),
            tags: Vec::new(),
            description: "Testing".to_string(),
        },
        signals: Signals {
            continuous: SignalContinuous { envelopes: Envelopes { amplitude: amps, frequency: freqs } },
        },
    }
}

fn bp(time: i64, amplitude: i64) -> AmplitudeBreakpoint {
    AmplitudeBreakpoint { time, amplitude, emphasis: None }
}

fn ebp(time: i64, amplitude: i64, ea: i64, ef: i64) -> AmplitudeBreakpoint {
    AmplitudeBreakpoint {
        time,
        amplitude,
        emphasis: Some(Emphasis { amplitude: ea, frequency: ef }),
    }
}

#[test]
fn square_root_mapping_is_exact() {
    assert_eq!(sqrt_units(0), 0);
    assert_eq!(sqrt_units(100000), 100000);
    assert_eq!(sqrt_units(25000), 50000);
    assert_eq!(sqrt_units(1000), 10000);
    // sqrt(0.5) = 0.70711 to the nearest unit
    assert_eq!(sqrt_units(50000), 70711);
}

#[test]
fn pattern_structure_counts() {
    let amps = (0..20).map(|i| bp(i * 10000, 50000)).collect::<Vec<_>>();
    let freqs = (0..5).map(|i| FrequencyBreakpoint { time: i * 10000, frequency: 40000 }).collect();
    let c = clip(amps, Some(freqs));
    let ahap = Ahap::from_data_model(c);
    // 20 amplitude points: two intensity curves; 5 frequency points: one
    // sharpness curve; the clip lasts 1.9 s: one continuous event; no
    // transients.
    assert_eq!(ahap.pattern.len(), 2 + 1 + 1);
    assert_eq!(ahap.version, 100000);
    assert_eq!(ahap.metadata.created, "SDK Team");
    assert_eq!(ahap.metadata.project, "Demo");
    assert_eq!(ahap.metadata.description, "Testing");
}

#[test]
fn long_clip_splits_continuous_events() {
    // 65 seconds of clip: three continuous events (30 + 30 + 5).
    let c = clip(vec![bp(0, 50000), bp(6_500_000, 50000)], None);
    let ahap = Ahap::from_data_model(c);
    let durations: Vec<i64> = ahap
        .pattern
        .iter()
        .filter_map(|p| match p {
            Pattern::Event(Event::HapticContinuous { event_duration, .. }) => Some(*event_duration),
            _ => None,
        })
        .collect();
    assert_eq!(durations, vec![3_000_000, 3_000_000, 500_000]);
}

#[test]
fn transients_split_from_continuous() {
    let c = clip(
        vec![bp(0, 10000), ebp(10000, 20000, 80000, 70000), bp(20000, 10000)],
        None,
    );
    let ahap = Ahap::from_data_model(c);
    let (continuous, transients) = ahap.into_continuous_and_transients_ahaps();
    let t = transients.expect("one emphasis gives a transients pattern");
    assert_eq!(t.pattern.len(), 1);
    match &t.pattern[0] {
        Pattern::Event(Event::HapticTransient { time, event_parameters }) => {
            assert_eq!(*time, 10000);
            // intensity is the square-rooted emphasis amplitude
            assert_eq!(event_parameters[0].parameter_value, sqrt_units(80000));
            // sharpness is the emphasis frequency, unmapped
            assert_eq!(event_parameters[1].parameter_value, 70000);
        },
        _ => panic!("expected a transient"),
    }
    assert!(continuous.pattern.iter().all(|p| !matches!(
        p,
        Pattern::Event(Event::HapticTransient { .. })
    )));
}

#[test]
fn no_transients_means_no_second_pattern() {
    let c = clip(vec![bp(0, 10000), bp(10000, 20000)], None);
    let (_, transients) = convert_to_transient_and_continuous_ahaps(c);
    assert!(transients.is_none());
}

#[test]
fn convert_clip_with_emphasis_to_waveform() {
    // The full conversion pipeline of the waveform backend: emphasis
    // rendered, resampled, no zero-length cells, amplitudes in range.
    let c = clip(
        vec![bp(0, 20000), bp(10000, 30000), ebp(20000, 20000, 80000, 70000), bp(30000, 50000),
            bp(50000, 50000)],
        None,
    );
    let w = convert_clip_to_waveform(&c);
    assert_eq!(w.timings.len(), w.amplitudes.len());
    assert!(w.timings.iter().all(|t| *t > 0));
    assert!(w.amplitudes.iter().all(|a| 0 <= *a && *a <= 255));
    // the burst at full amplitude must be visible in the waveform
    assert!(w.amplitudes.iter().any(|a| *a == 255));
    let total: i64 = w.timings.iter().sum();
    // clip end 0.5 s, emphasis padding at most 60 ms, drift under 1 ms
    assert!(total >= 499 && total <= 561, "total {}", total);
}
