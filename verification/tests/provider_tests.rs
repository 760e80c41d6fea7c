//! Tests of the event provider: full event sequences, seeking, stopping and
//! modulation. Values are in fixed-point units: 100000 per second and per
//! 1.0 of amplitude or frequency.

use haptic_core::model::{
    AmplitudeBreakpoint, DataModel, Emphasis, Envelopes, FrequencyBreakpoint, MetaData,
    SignalContinuous, Signals,
};
use haptic_core::provider::{AmplitudeEvent, Event, FrequencyEvent, HapticEventProvider};
use haptic_core::version::Version;

fn clip(
    amps: Vec<AmplitudeBreakpoint>,
    freqs: Option<Vec<FrequencyBreakpoint>>,
) -> DataModel {
    DataModel {
        version: Version { major: 1, minor: 0, patch: 0 },
        metadata: MetaData {
            editor: String::new(),
            author: String::new(),
            source: String::new(),
            project: String::new(),
            tags: Vec::new(),
            description: String::new(),
        },
        signals: Signals {
            continuous: SignalContinuous { envelopes: Envelopes { amplitude: amps, frequency: freqs } },
        },
    }
}

fn bp(time: i64, amplitude: i64) -> AmplitudeBreakpoint {
    AmplitudeBreakpoint { time, amplitude, emphasis: None }
}

fn ebp(time: i64, amplitude: i64, ea: i64, ef: i64) -> AmplitudeBreakpoint {
    AmplitudeBreakpoint {
        time,
        amplitude,
        emphasis: Some(Emphasis { amplitude: ea, frequency: ef }),
    }
}

fn fbp(time: i64, frequency: i64) -> FrequencyBreakpoint {
    FrequencyBreakpoint { time, frequency }
}

fn amp(time: i64, duration: i64, amplitude: i64) -> Event {
    Event::Amplitude(AmplitudeEvent { time, duration, amplitude, emphasis: None })
}

fn emp(time: i64, duration: i64, amplitude: i64, ea: i64, ef: i64) -> Event {
    Event::Amplitude(AmplitudeEvent {
        time,
        duration,
        amplitude,
        emphasis: Some(Emphasis { amplitude: ea, frequency: ef }),
    })
}

fn freq(time: i64, duration: i64, frequency: i64) -> Event {
    Event::Frequency(FrequencyEvent { time, duration, frequency })
}

fn gather(provider: &mut HapticEventProvider, max_events: Option<usize>) -> Vec<Event> {
    let mut result = Vec::new();
    loop {
        if let Some(max_events) = max_events {
            if result.len() >= max_events {
                break;
            }
        }
        let time = provider.peek_event_start_time();
        let event = provider.get_next_event();
        assert_eq!(time.is_some(), event.is_some());
        if let Some(event) = event {
            assert_eq!(time.unwrap(), event.time());
            result.push(event);
        } else {
            break;
        }
    }
    result
}

fn normal_clip() -> DataModel {
    clip(
        vec![bp(0, 10000), bp(10000, 20000), bp(20000, 30000), bp(30000, 20000)],
        Some(vec![
            fbp(0, 95000),
            fbp(10000, 90000),
            fbp(20000, 80000),
            fbp(25000, 70000),
            fbp(30000, 60000),
        ]),
    )
}

fn normal_with_1_emphasis_clip() -> DataModel {
    clip(
        vec![bp(0, 10000), ebp(10000, 20000, 60000, 30000), bp(20000, 30000), bp(30000, 20000)],
        Some(vec![
            fbp(0, 95000),
            fbp(10000, 90000),
            fbp(20000, 80000),
            fbp(25000, 70000),
            fbp(30000, 60000),
        ]),
    )
}

fn normal_with_2_emphasis_clip() -> DataModel {
    clip(
        vec![
            bp(0, 10000),
            ebp(10000, 20000, 60000, 30000),
            bp(20000, 30000),
            ebp(30000, 20000, 95000, 80000),
        ],
        Some(vec![
            fbp(0, 95000),
            fbp(10000, 90000),
            fbp(20000, 80000),
            fbp(25000, 70000),
            fbp(30000, 60000),
        ]),
    )
}

fn compare_events(c: DataModel, expected: &[Event]) {
    let mut provider = HapticEventProvider::new(c);
    let actual = gather(&mut provider, None);
    assert_eq!(actual, expected);
}

fn compare_seek_events(c: DataModel, pre: &[Event], seek_time: i64, post: &[Event]) {
    let mut provider = HapticEventProvider::new(c);
    let actual_pre = gather(&mut provider, Some(pre.len()));
    assert_eq!(actual_pre, pre);
    provider.seek(seek_time);
    let actual_post = gather(&mut provider, None);
    assert_eq!(actual_post, post);
}

#[test]
fn test_normal() {
    compare_events(
        normal_clip(),
        &[
            amp(0, 0, 10000),
            amp(0, 10000, 20000),
            freq(0, 0, 95000),
            freq(0, 10000, 90000),
            amp(10000, 10000, 30000),
            freq(10000, 10000, 80000),
            amp(20000, 10000, 20000),
            freq(20000, 5000, 70000),
            freq(25000, 5000, 60000),
            amp(30000, 0, 0),
        ],
    );
}

#[test]
fn test_amplitude_only() {
    compare_events(
        clip(vec![bp(0, 10000), bp(10000, 20000), bp(20000, 30000), bp(30000, 20000)], None),
        &[
            amp(0, 0, 10000),
            amp(0, 10000, 20000),
            amp(10000, 10000, 30000),
            amp(20000, 10000, 20000),
            amp(30000, 0, 0),
        ],
    );
}

#[test]
fn test_different_times() {
    compare_events(
        clip(
            vec![bp(0, 10000), bp(10000, 20000), bp(20000, 30000), bp(30000, 20000)],
            Some(vec![fbp(0, 95000), fbp(15000, 90000), fbp(17500, 80000), fbp(35000, 70000)]),
        ),
        &[
            amp(0, 0, 10000),
            amp(0, 10000, 20000),
            freq(0, 0, 95000),
            freq(0, 15000, 90000),
            amp(10000, 10000, 30000),
            freq(15000, 2500, 80000),
            freq(17500, 17500, 70000),
            amp(20000, 10000, 20000),
            amp(30000, 0, 0),
        ],
    );
}

#[test]
fn test_more_amplitude_breakpoints() {
    compare_events(
        clip(
            vec![bp(0, 10000), bp(10000, 20000), bp(20000, 30000), bp(30000, 20000)],
            Some(vec![fbp(0, 95000), fbp(10000, 90000), fbp(30000, 60000)]),
        ),
        &[
            amp(0, 0, 10000),
            amp(0, 10000, 20000),
            freq(0, 0, 95000),
            freq(0, 10000, 90000),
            amp(10000, 10000, 30000),
            freq(10000, 20000, 60000),
            amp(20000, 10000, 20000),
            amp(30000, 0, 0),
        ],
    );
}

#[test]
fn test_more_frequency_breakpoints() {
    compare_events(
        clip(
            vec![bp(0, 10000), bp(30000, 20000)],
            Some(vec![
                fbp(0, 95000),
                fbp(10000, 90000),
                fbp(20000, 80000),
                fbp(25000, 70000),
                fbp(30000, 60000),
            ]),
        ),
        &[
            amp(0, 0, 10000),
            amp(0, 30000, 20000),
            freq(0, 0, 95000),
            freq(0, 10000, 90000),
            freq(10000, 10000, 80000),
            freq(20000, 5000, 70000),
            freq(25000, 5000, 60000),
            amp(30000, 0, 0),
        ],
    );
}

#[test]
fn test_first_amplitude_breakpoint_not_at_time_0() {
    compare_events(
        clip(vec![bp(30000, 10000), bp(40000, 20000)], None),
        &[amp(0, 30000, 10000), amp(30000, 10000, 20000), amp(40000, 0, 0)],
    );
}

#[test]
fn test_first_frequency_breakpoint_not_at_time_0() {
    compare_events(
        clip(
            vec![bp(0, 10000), bp(30000, 20000)],
            Some(vec![fbp(10000, 95000), fbp(30000, 60000)]),
        ),
        &[
            amp(0, 0, 10000),
            amp(0, 30000, 20000),
            freq(0, 10000, 95000),
            freq(10000, 20000, 60000),
            amp(30000, 0, 0),
        ],
    );
}

#[test]
fn test_one_frequency_breakpoint() {
    compare_events(
        clip(vec![bp(0, 10000), bp(30000, 20000)], Some(vec![fbp(0, 95000)])),
        &[amp(0, 0, 10000), amp(0, 30000, 20000), freq(0, 0, 95000), amp(30000, 0, 0)],
    );
}

#[test]
fn test_one_amplitude_breakpoint() {
    compare_events(
        clip(vec![bp(30000, 90000)], None),
        &[amp(0, 30000, 90000), amp(30000, 0, 0)],
    );
}

#[test]
fn test_one_amplitude_breakpoint_multiple_frequency_breakpoints() {
    compare_events(
        clip(
            vec![bp(30000, 90000)],
            Some(vec![fbp(0, 95000), fbp(15000, 90000), fbp(30000, 80000)]),
        ),
        &[
            amp(0, 30000, 90000),
            freq(0, 0, 95000),
            freq(0, 15000, 90000),
            freq(15000, 15000, 80000),
            amp(30000, 0, 0),
        ],
    );
}

#[test]
fn test_normal_with_1_emphasis() {
    compare_events(
        normal_with_1_emphasis_clip(),
        &[
            amp(0, 0, 10000),
            amp(0, 10000, 20000),
            freq(0, 0, 95000),
            freq(0, 10000, 90000),
            emp(10000, 10000, 30000, 60000, 30000),
            freq(10000, 10000, 80000),
            amp(20000, 10000, 20000),
            freq(20000, 5000, 70000),
            freq(25000, 5000, 60000),
            amp(30000, 0, 0),
        ],
    );
}

#[test]
fn test_normal_with_2_emphasis() {
    compare_events(
        normal_with_2_emphasis_clip(),
        &[
            amp(0, 0, 10000),
            amp(0, 10000, 20000),
            freq(0, 0, 95000),
            freq(0, 10000, 90000),
            emp(10000, 10000, 30000, 60000, 30000),
            freq(10000, 10000, 80000),
            amp(20000, 10000, 20000),
            freq(20000, 5000, 70000),
            freq(25000, 5000, 60000),
            emp(30000, 0, 0, 95000, 80000),
        ],
    );
}

#[test]
fn emphasis_at_end() {
    compare_events(
        clip(
            vec![bp(0, 10000), bp(10000, 20000), ebp(30000, 5000, 60000, 30000)],
            None,
        ),
        &[
            amp(0, 0, 10000),
            amp(0, 10000, 20000),
            amp(10000, 20000, 5000),
            emp(30000, 0, 0, 60000, 30000),
        ],
    );
}

#[test]
fn emphasis_at_start() {
    compare_events(
        clip(
            vec![ebp(0, 10000, 60000, 30000), bp(10000, 20000), bp(30000, 5000)],
            None,
        ),
        &[
            amp(0, 0, 10000),
            emp(0, 10000, 20000, 60000, 30000),
            amp(10000, 20000, 5000),
            amp(30000, 0, 0),
        ],
    );
}

#[test]
fn peek_and_get_after_stopping() {
    let mut provider = HapticEventProvider::new(normal_clip());
    assert!(provider.peek_event_start_time().is_some());
    assert!(provider.get_next_event().is_some());
    provider.stop();
    assert!(provider.peek_event_start_time().is_some());
    assert!(provider.get_next_event().is_some());
    assert!(provider.peek_event_start_time().is_none());
    assert!(provider.get_next_event().is_none())
}

#[test]
fn seek_backward() {
    compare_seek_events(
        normal_clip(),
        &[
            amp(0, 0, 10000),
            amp(0, 10000, 20000),
            freq(0, 0, 95000),
            freq(0, 10000, 90000),
            amp(10000, 10000, 30000),
            freq(10000, 10000, 80000),
        ],
        5000,
        &[
            amp(5000, 0, 15000),
            amp(5000, 5000, 20000),
            freq(5000, 0, 92500),
            freq(5000, 5000, 90000),
            amp(10000, 10000, 30000),
            freq(10000, 10000, 80000),
            amp(20000, 10000, 20000),
            freq(20000, 5000, 70000),
            freq(25000, 5000, 60000),
            amp(30000, 0, 0),
        ],
    );
}

#[test]
fn seek_forward() {
    compare_seek_events(
        normal_clip(),
        &[
            amp(0, 0, 10000),
            amp(0, 10000, 20000),
            freq(0, 0, 95000),
            freq(0, 10000, 90000),
            amp(10000, 10000, 30000),
            freq(10000, 10000, 80000),
        ],
        25000,
        &[
            amp(25000, 0, 25000),
            amp(25000, 5000, 20000),
            freq(25000, 0, 70000),
            freq(25000, 5000, 60000),
            amp(30000, 0, 0),
        ],
    );
}

#[test]
fn seek_to_beginning() {
    compare_seek_events(
        normal_clip(),
        &[
            amp(0, 0, 10000),
            amp(0, 10000, 20000),
            freq(0, 0, 95000),
            freq(0, 10000, 90000),
            amp(10000, 10000, 30000),
            freq(10000, 10000, 80000),
        ],
        0,
        &[
            amp(0, 0, 10000),
            amp(0, 10000, 20000),
            freq(0, 0, 95000),
            freq(0, 10000, 90000),
            amp(10000, 10000, 30000),
            freq(10000, 10000, 80000),
            amp(20000, 10000, 20000),
            freq(20000, 5000, 70000),
            freq(25000, 5000, 60000),
            amp(30000, 0, 0),
        ],
    );
}

#[test]
fn seek_to_before_first_bp() {
    compare_seek_events(
        clip(vec![bp(30000, 10000), bp(40000, 20000)], None),
        &[amp(0, 30000, 10000), amp(30000, 10000, 20000)],
        20000,
        &[amp(20000, 10000, 10000), amp(30000, 10000, 20000), amp(40000, 0, 0)],
    );
}

#[test]
fn seek_to_last_bp() {
    compare_seek_events(
        normal_clip(),
        &[
            amp(0, 0, 10000),
            amp(0, 10000, 20000),
            freq(0, 0, 95000),
            freq(0, 10000, 90000),
            amp(10000, 10000, 30000),
            freq(10000, 10000, 80000),
        ],
        30000,
        &[amp(30000, 0, 20000), amp(30000, 0, 0)],
    );
}

#[test]
fn seek_to_after_last_bp() {
    compare_seek_events(
        normal_clip(),
        &[
            amp(0, 0, 10000),
            amp(0, 10000, 20000),
            freq(0, 0, 95000),
            freq(0, 10000, 90000),
            amp(10000, 10000, 30000),
            freq(10000, 10000, 80000),
        ],
        40000,
        &[amp(30000, 0, 0)],
    );
}

#[test]
fn seek_from_start_to_after_last_bp() {
    compare_seek_events(normal_clip(), &[], 40000, &[amp(30000, 0, 0)]);
}

#[test]
fn seek_to_before_emphasis() {
    compare_seek_events(
        normal_with_2_emphasis_clip(),
        &[
            amp(0, 0, 10000),
            amp(0, 10000, 20000),
            freq(0, 0, 95000),
            freq(0, 10000, 90000),
            emp(10000, 10000, 30000, 60000, 30000),
            freq(10000, 10000, 80000),
        ],
        25000,
        &[
            amp(25000, 0, 25000),
            amp(25000, 5000, 20000),
            freq(25000, 0, 70000),
            freq(25000, 5000, 60000),
            emp(30000, 0, 0, 95000, 80000),
        ],
    );
}

#[test]
fn seek_to_emphasis() {
    compare_seek_events(
        normal_with_2_emphasis_clip(),
        &[
            amp(0, 0, 10000),
            amp(0, 10000, 20000),
            freq(0, 0, 95000),
            freq(0, 10000, 90000),
            emp(10000, 10000, 30000, 60000, 30000),
            freq(10000, 10000, 80000),
        ],
        30000,
        &[amp(30000, 0, 20000), emp(30000, 0, 0, 95000, 80000)],
    );
}

#[test]
fn seek_to_after_emphasis() {
    compare_seek_events(
        normal_with_2_emphasis_clip(),
        &[
            amp(0, 0, 10000),
            amp(0, 10000, 20000),
            freq(0, 0, 95000),
            freq(0, 10000, 90000),
        ],
        15000,
        &[
            amp(15000, 0, 25000),
            amp(15000, 5000, 30000),
            freq(15000, 0, 85000),
            freq(15000, 5000, 80000),
            amp(20000, 10000, 20000),
            freq(20000, 5000, 70000),
            freq(25000, 5000, 60000),
            emp(30000, 0, 0, 95000, 80000),
        ],
    );
}

#[test]
fn seek_to_after_end_of_frequency_envelope() {
    compare_seek_events(
        clip(
            vec![bp(0, 10000), bp(10000, 20000), bp(20000, 30000), bp(30000, 20000)],
            Some(vec![fbp(0, 95000), fbp(5000, 90000), fbp(10000, 80000), fbp(20000, 60000)]),
        ),
        &[
            amp(0, 0, 10000),
            amp(0, 10000, 20000),
            freq(0, 0, 95000),
            freq(0, 5000, 90000),
        ],
        25000,
        &[
            freq(20000, 0, 60000),
            amp(25000, 0, 25000),
            amp(25000, 5000, 20000),
            amp(30000, 0, 0),
        ],
    );
}

#[test]
fn seek_to_after_end_of_amplitude_envelope() {
    compare_seek_events(
        clip(
            vec![bp(0, 10000), bp(10000, 20000), bp(20000, 30000), bp(30000, 20000)],
            Some(vec![fbp(0, 95000), fbp(15000, 90000), fbp(17500, 80000), fbp(35000, 70000)]),
        ),
        &[
            amp(0, 0, 10000),
            amp(0, 10000, 20000),
            freq(0, 0, 95000),
            freq(0, 15000, 90000),
        ],
        35000,
        &[amp(30000, 0, 0)],
    );
}

#[test]
fn seek_negative() {
    compare_seek_events(
        normal_clip(),
        &[
            amp(0, 0, 10000),
            amp(0, 10000, 20000),
            freq(0, 0, 95000),
            freq(0, 10000, 90000),
            amp(10000, 10000, 30000),
            freq(10000, 10000, 80000),
        ],
        -100000,
        &[
            amp(0, 0, 10000),
            amp(0, 10000, 20000),
            freq(0, 0, 95000),
            freq(0, 10000, 90000),
            amp(10000, 10000, 30000),
            freq(10000, 10000, 80000),
            amp(20000, 10000, 20000),
            freq(20000, 5000, 70000),
            freq(25000, 5000, 60000),
            amp(30000, 0, 0),
        ],
    );
}

#[test]
fn streaming_test_amplitude_multiplication() {
    let mut provider = HapticEventProvider::new(normal_with_1_emphasis_clip());
    provider.set_amplitude_multiplication(200000);
    let actual = gather(&mut provider, None);
    let expected = [
        amp(0, 0, 40000),
        amp(0, 10000, 80000),
        freq(0, 0, 95000),
        freq(0, 10000, 90000),
        emp(10000, 10000, 100000, 100000, 30000),
        freq(10000, 10000, 80000),
        amp(20000, 10000, 80000),
        freq(20000, 5000, 70000),
        freq(25000, 5000, 60000),
        amp(30000, 0, 0),
    ];
    assert_eq!(actual, expected);
}

#[test]
fn test_frequency_shift() {
    let mut provider = HapticEventProvider::new(normal_with_1_emphasis_clip());
    provider.set_frequency_shift(20000);
    let actual = gather(&mut provider, None);
    let expected = [
        amp(0, 0, 10000),
        amp(0, 10000, 20000),
        freq(0, 0, 100000),
        freq(0, 10000, 100000),
        emp(10000, 10000, 30000, 60000, 50000),
        freq(10000, 10000, 100000),
        amp(20000, 10000, 20000),
        freq(20000, 5000, 90000),
        freq(25000, 5000, 80000),
        amp(30000, 0, 0),
    ];
    assert_eq!(actual, expected);
}

#[test]
fn amplitude_multiplication_of_zero_silences() {
    let mut provider = HapticEventProvider::new(normal_clip());
    provider.set_amplitude_multiplication(0);
    let events = gather(&mut provider, None);
    for e in events {
        if let Event::Amplitude(a) = e {
            assert_eq!(a.amplitude, 0);
        }
    }
}

#[test]
fn amplitude_multiplication_clips_at_full_scale() {
    // A half-amplitude breakpoint under a multiplication of two lands at
    // exactly full scale.
    let mut provider = HapticEventProvider::new(
        clip(vec![bp(0, 0), bp(10000, 50000), bp(20000, 0)], None),
    );
    provider.set_amplitude_multiplication(200000);
    let events = gather(&mut provider, None);
    assert_eq!(
        events,
        vec![amp(0, 0, 0), amp(0, 10000, 100000), amp(10000, 10000, 0), amp(20000, 0, 0)],
    );
}
