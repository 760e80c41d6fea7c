//! Tests of the controller facade over the null backend, and of the
//! streaming and waveform state machines.

use haptic_core::android::{HostAction, WaveformPlayerState};
use haptic_core::controller::HapticsController;
use haptic_core::error::Error;
use haptic_core::model::{
    AmplitudeBreakpoint, DataModel, Envelopes, MetaData, SignalContinuous, Signals,
};
use haptic_core::controller::PreAuthoredClipPlayback;
use haptic_core::null;
use haptic_core::provider::Event;
use haptic_core::streaming::EventSender;
use haptic_core::version::Version;

fn small_clip() -> DataModel {
    DataModel {
        version: Version { major: 1, minor: 0, patch: 0 },
        metadata: MetaData {
            editor: String::new(),
            author: String::new(),
            source: String::new(),
            project: String::new(),
            tags: Vec::new(),
            description: String::new(),
        },
        signals: Signals {
            continuous: SignalContinuous {
                envelopes: Envelopes {
                    amplitude: vec![
                        AmplitudeBreakpoint { time: 0, amplitude: 10000, emphasis: None },
                        AmplitudeBreakpoint { time: 30000, amplitude: 20000, emphasis: None },
                    ],
                    frequency: None,
                },
            },
        },
    }
}

fn valid_json() -> &'static str {
    r#"{
        "version": { "major": 1 },
        "signals": { "continuous": { "envelopes": {
            "amplitude": [ { "time": 0.0, "amplitude": 0.2 }, { "time": 0.3, "amplitude": 0.5 } ]
        } } }
    }"#
}

#[test]
fn test_play_from_valid_v1() {
    let mut controller = HapticsController::new(null::Player::new().unwrap());
    controller.load(valid_json()).unwrap();
    controller.play().unwrap();
}

#[test]
fn test_load_from_invalid_v1() {
    let data = r#"{ "version": { "major": 2 }, "signals": {} }"#;
    let mut controller = HapticsController::new(null::Player::new().unwrap());
    let err = controller.load(data).unwrap_err();
    assert_eq!(err.message, "Unsupported version");
    assert_eq!(
        controller.play().unwrap_err(),
        Error::new("Player play: no clip loaded")
    );
}

#[test]
fn test_unloading_on_invalid() {
    let mut controller = HapticsController::new(null::Player::new().unwrap());
    controller.load(valid_json()).unwrap();
    controller.play().unwrap();
    let data = r#"{ "version": { "major": 2 }, "signals": {} }"#;
    assert!(controller.load(data).is_err());
    assert_eq!(
        controller.play().unwrap_err(),
        Error::new("Player play: no clip loaded")
    );
}

#[test]
fn test_get_clip_duration() {
    let mut controller = HapticsController::new(null::Player::new().unwrap());
    assert_eq!(controller.get_clip_duration(), 0);
    controller.load(valid_json()).unwrap();
    assert_eq!(controller.get_clip_duration(), 30000);
}

#[test]
fn lib_test_amplitude_multiplication() {
    let mut controller = HapticsController::new(null::Player::new().unwrap());
    controller.load(valid_json()).unwrap();
    controller.set_amplitude_multiplication(-230000).unwrap_err();
    controller.set_amplitude_multiplication(50000).unwrap();
    controller.play().unwrap();
}

#[test]
fn test_frequency_shift_range() {
    let mut controller = HapticsController::new(null::Player::new().unwrap());
    controller.load(valid_json()).unwrap();
    controller.set_frequency_shift(150000).unwrap_err();
    controller.set_frequency_shift(-150000).unwrap_err();
    controller.set_frequency_shift(20000).unwrap();
}

#[test]
fn test_null_player_load_play_stop() {
    let mut player = null::Player::new().unwrap();
    player.load(small_clip()).unwrap();
    player.play().unwrap();
    player.stop().unwrap();
}

#[test]
fn test_null_player_fail() {
    let mut player = null::Player::new().unwrap();
    assert!(player.play().is_err());
    assert!(player.stop().is_err());
}

#[test]
fn sender_negative_seek_while_playing_emits_ramp_to_zero() {
    // Seeking to a negative time during playback delivers an immediate ramp
    // to zero, and the start time moves into the future by the seek amount.
    let mut sender = EventSender::new();
    let now: i64 = 1_000_000;
    assert!(sender.load(small_clip(), now).is_none());
    sender.play(now);
    let now2 = now + 5000;
    let emission = sender.seek(-40000, now2);
    match emission {
        Some(Event::Amplitude(a)) => {
            assert_eq!(a.amplitude, 0);
            assert_eq!(a.duration, 0);
        },
        _ => panic!("expected an immediate ramp to zero"),
    }
    assert_eq!(sender.start_time, Some(now2 + 40000));
    assert_eq!(sender.time_to_next_event(now2), 40000);
}

#[test]
fn sender_stop_is_idempotent() {
    let mut sender = EventSender::new();
    let now: i64 = 500;
    sender.load(small_clip(), now);
    sender.play(now);
    let first = sender.stop(now);
    assert!(first.is_some());
    let second = sender.stop(now);
    assert!(second.is_none());
}

#[test]
fn sender_play_applies_pre_delay() {
    // A negative seek while stopped is stored and applied on the next play.
    let mut sender = EventSender::new();
    let now: i64 = 100;
    sender.load(small_clip(), now);
    assert!(sender.seek(-20000, now).is_none());
    assert_eq!(sender.play_delay, Some(20000));
    sender.play(now);
    // the first event is at clip time 0, so playback starts 20000 units out
    assert_eq!(sender.start_time, Some(now + 20000));
}

#[test]
fn sender_play_twice_changes_nothing() {
    let mut sender = EventSender::new();
    let now: i64 = 100;
    sender.load(small_clip(), now);
    sender.play(now);
    let st = sender.start_time;
    sender.play(now + 777);
    assert_eq!(sender.start_time, st);
}

#[test]
fn sender_delivers_all_events_in_order() {
    let mut sender = EventSender::new();
    let mut now: i64 = 42;
    sender.load(small_clip(), now);
    sender.play(now);
    let mut times: Vec<i64> = Vec::new();
    loop {
        let wait = sender.time_to_next_event(now);
        if wait >= 1_000_000_000 {
            break;
        }
        now += wait;
        match sender.send_next_event(now) {
            Some(e) => times.push(e.time()),
            None => break,
        }
    }
    assert_eq!(times, vec![0, 0, 30000]);
    assert!(sender.start_time.is_none());
}

#[test]
fn waveform_player_load_seek_and_modulation() {
    let mut state = WaveformPlayerState::new();
    let loaded = match state.on_load(small_clip()) {
        HostAction::LoadClip(w, looping) => {
            assert!(!looping);
            assert!(w.timings.iter().all(|t| *t > 0));
            assert!(w.amplitudes.iter().all(|a| 0 <= *a && *a <= 255));
            w
        },
        _ => panic!("expected a load action"),
    };
    // seek past the end plays nothing
    match state.on_seek(99_000_000_000) {
        HostAction::SeekClip(w) => {
            assert!(w.timings.is_empty());
            assert!(w.amplitudes.is_empty());
        },
        _ => panic!("expected a seek action"),
    }
    // amplitude multiplication scales the loaded waveform
    match state.on_set_amplitude_multiplication(50000) {
        HostAction::LoadClip(w, _) => {
            assert_eq!(w.timings, loaded.timings);
            for (half, orig) in w.amplitudes.iter().zip(loaded.amplitudes.iter()) {
                assert_eq!(*half, orig / 2);
            }
        },
        _ => panic!("expected a reload"),
    }
    // looping reloads with the flag set and makes seeking a no-op
    match state.on_loop(true) {
        HostAction::LoadClip(_, looping) => assert!(looping),
        _ => panic!("expected a reload"),
    }
    match state.on_seek(0) {
        HostAction::Nothing => {},
        _ => panic!("seek while looping should do nothing"),
    }
}

#[test]
fn facade_rejects_operations_without_clip() {
    // The facade itself gates every playback operation on a loaded clip;
    // stopping with none is a no-op.
    let mut controller = HapticsController::new(null::Player::new().unwrap());
    assert!(controller.play().is_err());
    assert!(controller.seek(100).is_err());
    assert!(controller.set_looping(true).is_err());
    assert!(controller.set_amplitude_multiplication(50000).is_err());
    assert!(controller.set_frequency_shift(0).is_err());
    assert!(controller.stop().is_ok());
}

#[test]
fn sender_looping_restarts_at_clip_start() {
    // When the last event empties the provider with looping on, playback
    // restarts at the clip start anchored at the moment of emission.
    let mut sender = EventSender::new();
    let mut now: i64 = 42;
    sender.load(small_clip(), now);
    sender.set_looping_enabled(true);
    sender.play(now);
    let mut delivered: i64 = 0;
    loop {
        let wait = sender.time_to_next_event(now);
        if wait >= 1_000_000_000 {
            break;
        }
        now += wait;
        if sender.send_next_event(now).is_none() {
            break;
        }
        delivered += 1;
        if sender.start_time == Some(now) && delivered >= 3 {
            // the provider emptied and was re-anchored at `now`
            break;
        }
        if delivered > 8 {
            panic!("looping never restarted");
        }
    }
    assert_eq!(sender.start_time, Some(now));
    assert_eq!(sender.time_to_next_event(now), 0);
}
