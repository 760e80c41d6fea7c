//! Conversion of a clip into a rumble pattern for gamepads with two motors:
//! the amplitude envelope drives the low-frequency motor and the frequency
//! envelope the high-frequency motor, each rendered, resampled and turned
//! into a waveform over a shared sequence of durations.

use vstd::prelude::*;
use crate::emphasis::{emphasize, spec_emphasize, EmphasisParameters};
use crate::error::Error;
use crate::fixed::{interpolate, spec_lerp, MAX_TIME};
use crate::interpolation::{spec_process, InterpolationParameters, Interpolator};
use crate::model::{amp_bp_wf, clip_playable, AmplitudeBreakpoint, DataModel, FrequencyBreakpoint};
use crate::waveform::{spec_cells, Waveform, WaveformConversionParameters};

verus! {

/// The time step the gamepad conversion resamples at: about 16 milliseconds,
/// one frame of a display refreshing sixty times a second.
pub const GAMEPAD_MIN_TIME_STEP: i64 = 1666;

/// The integer level range of the rumble pattern.
pub const GAMEPAD_MAX_LEVEL: i32 = 255;

/// A rumble pattern: for each entry the two motors run at the given levels
/// (from 0 to `GAMEPAD_MAX_LEVEL`) for the given number of milliseconds.
#[derive(Debug, Clone, PartialEq)]
pub struct GamepadRumble {
    pub durations_ms: Vec<i64>,
    pub low_frequency_motor_levels: Vec<i32>,
    pub high_frequency_motor_levels: Vec<i32>,
}

/// Turns the frequency envelope into amplitude breakpoints, so that the same
/// rendering passes can drive the high-frequency motor.
pub fn frequency_breakpoints_to_amplitude_breakpoints(
    frequency_breakpoints: &Option<Vec<crate::model::FrequencyBreakpoint>>,
) -> (r: Vec<AmplitudeBreakpoint>)
    ensures
        match frequency_breakpoints {
            Some(f) => r@.len() == f@.len() && forall|i: int|
                0 <= i < r@.len() ==> #[trigger] r@[i] == (AmplitudeBreakpoint {
                    time: f@[i].time,
                    amplitude: f@[i].frequency,
                    emphasis: None,
                }),
            None => r@.len() == 0,
        },
{
    let mut r: Vec<AmplitudeBreakpoint> = Vec::new();
    match frequency_breakpoints {
        None => r,
        Some(f) => {
            let mut i: usize = 0;
            while i < f.len()
                invariant
                    i <= f@.len(),
                    r@.len() == i,
                    forall|k: int|
                        0 <= k < i ==> #[trigger] r@[k] == (AmplitudeBreakpoint {
                            time: f@[k].time,
                            amplitude: f@[k].frequency,
                            emphasis: None,
                        }),
                decreases f@.len() - i,
            {
                let b = f[i];
                r.push(AmplitudeBreakpoint { time: b.time, amplitude: b.frequency, emphasis: None });
                i += 1;
            }
            r
        },
    }
}

/// The first index at or after `i` whose breakpoint lies beyond `t`.
pub open spec fn spec_take_upto(s: Seq<AmplitudeBreakpoint>, i: int, t: int) -> int
    decreases s.len() - i,
{
    if i < 0 || i >= s.len() || s[i].time > t {
        i
    } else {
        spec_take_upto(s, i + 1, t)
    }
}

/// The breakpoint inserted at time point `t` when the breakpoints up to
/// index `i2` have been taken over: silent before the first breakpoint, the
/// held last amplitude past the last, the interpolated envelope value in
/// between.
pub open spec fn spec_extend_bp(s: Seq<AmplitudeBreakpoint>, t: i64, i2: int) -> AmplitudeBreakpoint {
    AmplitudeBreakpoint {
        time: t,
        amplitude: (if i2 == 0 {
            0
        } else if i2 >= s.len() {
            s[s.len() - 1].amplitude as int
        } else {
            spec_lerp(
                s[i2 - 1].time as int,
                s[i2].time as int,
                s[i2 - 1].amplitude as int,
                s[i2].amplitude as int,
                t as int,
            )
        }) as i64,
        emphasis: None,
    }
}

/// The merge of the breakpoints from index `i` on with the time points from
/// index `j` on: each time point inserts a breakpoint with the envelope's
/// value there unless one exists at that exact time, and every input
/// breakpoint passes through unchanged, in order.
pub open spec fn spec_extend(
    s: Seq<AmplitudeBreakpoint>,
    ts: Seq<i64>,
    i: int,
    j: int,
) -> Seq<AmplitudeBreakpoint>
    decreases ts.len() - j,
{
    if j < 0 || j >= ts.len() {
        s.subrange(i, s.len() as int)
    } else {
        let t = ts[j];
        let i2 = spec_take_upto(s, i, t as int);
        let taken = s.subrange(i, i2);
        let ins: Seq<AmplitudeBreakpoint> = if i2 > 0 && s[i2 - 1].time == t {
            Seq::empty()
        } else {
            seq![spec_extend_bp(s, t, i2)]
        };
        taken + ins + spec_extend(s, ts, i2, j + 1)
    }
}

/// Taking one breakpoint below the time point off the front of the merge.
proof fn lemma_extend_take_one(s: Seq<AmplitudeBreakpoint>, ts: Seq<i64>, i: int, j: int)
    requires
        0 <= i < s.len(),
        0 <= j < ts.len(),
        s[i].time <= ts[j],
    ensures
        spec_extend(s, ts, i, j) == seq![s[i]] + spec_extend(s, ts, i + 1, j),
{
    let t = ts[j];
    assert(spec_take_upto(s, i, t as int) == spec_take_upto(s, i + 1, t as int));
    let i2 = spec_take_upto(s, i + 1, t as int);
    lemma_take_upto_range(s, i + 1, t as int);
    assert(s.subrange(i, i2) =~= seq![s[i]] + s.subrange(i + 1, i2));
    assert(spec_extend(s, ts, i, j) =~= seq![s[i]] + spec_extend(s, ts, i + 1, j));
}

/// `spec_take_upto` never runs backwards or past the end.
proof fn lemma_take_upto_range(s: Seq<AmplitudeBreakpoint>, i: int, t: int)
    requires
        0 <= i <= s.len(),
    ensures
        i <= spec_take_upto(s, i, t) <= s.len(),
    decreases s.len() - i,
{
    if i < s.len() && s[i].time <= t {
        lemma_take_upto_range(s, i + 1, t);
    }
}

/// Extends a time-ordered list of breakpoints with a breakpoint at every
/// given time point that none exists at yet: before the first breakpoint the
/// new one is silent, past the last it holds the last amplitude, and in
/// between it carries the interpolated envelope value. The time points must
/// be in order; the result is in order, and is pinned exactly by
/// `spec_extend`.
#[verifier::loop_isolation(false)]
#[verifier::rlimit(100)]
pub fn extend_breakpoints(
    breakpoints: &Vec<AmplitudeBreakpoint>,
    extended_timings: &Vec<i64>,
) -> (r: Vec<AmplitudeBreakpoint>)
    requires
        forall|i: int| 0 <= i < breakpoints@.len() ==> amp_bp_wf(#[trigger] breakpoints@[i]),
        crate::model::amp_times_monotone(breakpoints@),
        forall|i: int|
            0 <= i < extended_timings@.len() ==> 0 <= #[trigger] extended_timings@[i] <= MAX_TIME,
        forall|i: int, j: int|
            0 <= i <= j < extended_timings@.len() ==> #[trigger] extended_timings@[i]
                <= #[trigger] extended_timings@[j],
    ensures
        r@ == spec_extend(breakpoints@, extended_timings@, 0, 0),
        forall|i: int| 0 <= i < r@.len() ==> amp_bp_wf(#[trigger] r@[i]),
        crate::model::amp_times_monotone(r@),
        r@.len() <= breakpoints@.len() + extended_timings@.len(),
{
    let ghost full = spec_extend(breakpoints@, extended_timings@, 0, 0);
    let mut r: Vec<AmplitudeBreakpoint> = Vec::new();
    let mut i: usize = 0;
    let mut j: usize = 0;
    while j < extended_timings.len()
        invariant
            full == r@ + spec_extend(breakpoints@, extended_timings@, i as int, j as int),
            forall|k: int| 0 <= k < breakpoints@.len() ==> amp_bp_wf(#[trigger] breakpoints@[k]),
            crate::model::amp_times_monotone(breakpoints@),
            forall|k: int|
                0 <= k < extended_timings@.len() ==> 0 <= #[trigger] extended_timings@[k]
                    <= MAX_TIME,
            forall|p: int, q: int|
                0 <= p <= q < extended_timings@.len() ==> #[trigger] extended_timings@[p]
                    <= #[trigger] extended_timings@[q],
            i <= breakpoints@.len(),
            j <= extended_timings@.len(),
            r@.len() <= i + j,
            forall|k: int| 0 <= k < r@.len() ==> amp_bp_wf(#[trigger] r@[k]),
            crate::model::amp_times_monotone(r@),
            r@.len() > 0 && i < breakpoints@.len() ==> r@[r@.len() - 1].time
                <= breakpoints@[i as int].time,
            r@.len() > 0 && j < extended_timings@.len() ==> r@[r@.len() - 1].time
                <= extended_timings@[j as int],
            i > 0 && j < extended_timings@.len() ==> breakpoints@[i - 1].time
                <= extended_timings@[j as int],
            forall|k: int|
                i <= k < breakpoints@.len() ==> r@.len() == 0 || r@[r@.len() - 1].time
                    <= (#[trigger] breakpoints@[k]).time,
        decreases extended_timings@.len() - j,
    {
        let t = extended_timings[j];
        // First take over every existing breakpoint up to the time point.
        while i < breakpoints.len() && breakpoints[i].time <= t
            invariant
                full == r@ + spec_extend(breakpoints@, extended_timings@, i as int, j as int),
                forall|k: int|
                    0 <= k < breakpoints@.len() ==> amp_bp_wf(#[trigger] breakpoints@[k]),
                crate::model::amp_times_monotone(breakpoints@),
                j < extended_timings@.len(),
                t == extended_timings@[j as int],
                0 <= t <= MAX_TIME,
                i <= breakpoints@.len(),
                r@.len() <= i + j,
                forall|k: int| 0 <= k < r@.len() ==> amp_bp_wf(#[trigger] r@[k]),
                crate::model::amp_times_monotone(r@),
                r@.len() > 0 ==> r@[r@.len() - 1].time <= t,
                i > 0 ==> breakpoints@[i - 1].time <= t,
                r@.len() > 0 && i < breakpoints@.len() ==> r@[r@.len() - 1].time
                    <= breakpoints@[i as int].time,
                forall|k: int|
                    i <= k < breakpoints@.len() ==> r@.len() == 0 || r@[r@.len() - 1].time
                        <= (#[trigger] breakpoints@[k]).time,
            decreases breakpoints@.len() - i,
        {
            let ghost pre = r@;
            r.push(breakpoints[i]);
            proof {
                lemma_extend_take_one(breakpoints@, extended_timings@, i as int, j as int);
                assert(full =~= r@ + spec_extend(
                    breakpoints@,
                    extended_timings@,
                    i + 1,
                    j as int,
                ));
                assert forall|p: int, q: int| 0 <= p <= q < r@.len() implies #[trigger] r@[p].time
                    <= #[trigger] r@[q].time by {
                    if q == r@.len() - 1 && p < q {
                        assert(r@[p] == pre[p]);
                    }
                };
                assert forall|k: int|
                    i + 1 <= k < breakpoints@.len() implies r@.len() == 0 || r@[r@.len() - 1].time
                        <= (#[trigger] breakpoints@[k]).time by {
                    assert(breakpoints@[i as int].time <= breakpoints@[k].time);
                };
            }
            i += 1;
        }
        proof {
            assert(spec_take_upto(breakpoints@, i as int, t as int) == i as int);
        }
        // Insert a breakpoint at the time point unless one exists there.
        let already = i > 0 && breakpoints[i - 1].time == t;
        if !already {
            let value: i64 = if i == 0 {
                0
            } else if i >= breakpoints.len() {
                breakpoints[breakpoints.len() - 1].amplitude
            } else {
                proof {
                    assert(amp_bp_wf(breakpoints@[i - 1]));
                    assert(amp_bp_wf(breakpoints@[i as int]));
                    assert(breakpoints@[i - 1].time <= breakpoints@[i as int].time);
                }
                interpolate(
                    breakpoints[i - 1].time,
                    breakpoints[i].time,
                    breakpoints[i - 1].amplitude,
                    breakpoints[i].amplitude,
                    t,
                )
            };
            let ghost pre = r@;
            r.push(AmplitudeBreakpoint { time: t, amplitude: value, emphasis: None });
            proof {
                if i >= 1 && i < breakpoints@.len() {
                    crate::fixed::lemma_lerp_bounds(
                        breakpoints@[i - 1].time as int,
                        breakpoints@[i as int].time as int,
                        breakpoints@[i - 1].amplitude as int,
                        breakpoints@[i as int].amplitude as int,
                        t as int,
                    );
                }
                if i >= 1 && i >= breakpoints@.len() {
                    assert(amp_bp_wf(breakpoints@[breakpoints@.len() - 1]));
                }
                assert(r@[r@.len() - 1] == spec_extend_bp(breakpoints@, t, i as int));
                assert(full =~= r@ + spec_extend(breakpoints@, extended_timings@, i as int, j + 1));
                assert forall|p: int, q: int| 0 <= p <= q < r@.len() implies #[trigger] r@[p].time
                    <= #[trigger] r@[q].time by {
                    if q == r@.len() - 1 && p < q {
                        assert(r@[p] == pre[p]);
                    }
                };
            }
        } else {
            proof {
                assert(full =~= r@ + spec_extend(breakpoints@, extended_timings@, i as int, j + 1));
            }
        }
        proof {
            if j + 1 < extended_timings@.len() {
                assert(extended_timings@[j as int] <= extended_timings@[j + 1]);
            }
        }
        j += 1;
    }
    // Take over whatever breakpoints remain past the last time point.
    while i < breakpoints.len()
        invariant
            full == r@ + spec_extend(
                breakpoints@,
                extended_timings@,
                i as int,
                extended_timings@.len() as int,
            ),
            forall|k: int| 0 <= k < breakpoints@.len() ==> amp_bp_wf(#[trigger] breakpoints@[k]),
            crate::model::amp_times_monotone(breakpoints@),
            i <= breakpoints@.len(),
            r@.len() <= i + extended_timings@.len(),
            forall|k: int| 0 <= k < r@.len() ==> amp_bp_wf(#[trigger] r@[k]),
            crate::model::amp_times_monotone(r@),
            r@.len() > 0 && i < breakpoints@.len() ==> r@[r@.len() - 1].time
                <= breakpoints@[i as int].time,
            forall|k: int|
                i <= k < breakpoints@.len() ==> r@.len() == 0 || r@[r@.len() - 1].time
                    <= (#[trigger] breakpoints@[k]).time,
        decreases breakpoints@.len() - i,
    {
        let ghost pre = r@;
        r.push(breakpoints[i]);
        proof {
            assert(breakpoints@.subrange(i as int, breakpoints@.len() as int) =~= seq![
                breakpoints@[i as int],
            ] + breakpoints@.subrange(i + 1, breakpoints@.len() as int));
            assert(full =~= r@ + spec_extend(
                breakpoints@,
                extended_timings@,
                i + 1,
                extended_timings@.len() as int,
            ));
            assert forall|p: int, q: int| 0 <= p <= q < r@.len() implies #[trigger] r@[p].time
                <= #[trigger] r@[q].time by {
                if q == r@.len() - 1 && p < q {
                    assert(r@[p] == pre[p]);
                }
            };
            assert forall|k: int|
                i + 1 <= k < breakpoints@.len() implies r@.len() == 0 || r@[r@.len() - 1].time
                    <= (#[trigger] breakpoints@[k]).time by {
                assert(breakpoints@[i as int].time <= breakpoints@[k].time);
            };
        }
        i += 1;
    }
    proof {
        assert(breakpoints@.subrange(
            breakpoints@.len() as int,
            breakpoints@.len() as int,
        ) =~= Seq::<AmplitudeBreakpoint>::empty());
        assert(full =~= r@);
    }
    r
}

/// Extracts the times of the given breakpoints.
pub fn breakpoint_times(breakpoints: &Vec<AmplitudeBreakpoint>) -> (r: Vec<i64>)
    ensures
        r@.len() == breakpoints@.len(),
        forall|i: int| 0 <= i < r@.len() ==> #[trigger] r@[i] == breakpoints@[i].time,
{
    let mut r: Vec<i64> = Vec::new();
    let mut i: usize = 0;
    while i < breakpoints.len()
        invariant
            i <= breakpoints@.len(),
            r@.len() == i,
            forall|k: int| 0 <= k < i ==> #[trigger] r@[k] == breakpoints@[k].time,
        decreases breakpoints@.len() - i,
    {
        r.push(breakpoints[i].time);
        i += 1;
    }
    r
}

/// The times of a list of breakpoints.
pub open spec fn spec_times(s: Seq<AmplitudeBreakpoint>) -> Seq<i64> {
    Seq::new(s.len(), |i: int| s[i].time)
}

/// A frequency envelope read as amplitude breakpoints, so that the same
/// rendering passes can drive the high-frequency motor.
pub open spec fn spec_freq_as_amp(f: Seq<FrequencyBreakpoint>) -> Seq<AmplitudeBreakpoint> {
    Seq::new(
        f.len(),
        |i: int| AmplitudeBreakpoint { time: f[i].time, amplitude: f[i].frequency, emphasis: None },
    )
}

/// One motor's rendered envelope: emphasis rendered in with the small
/// ducking amplitude, then resampled at the gamepad's time step and
/// amplitude depth. An empty envelope stays empty.
pub open spec fn spec_motor(env: Seq<AmplitudeBreakpoint>) -> Seq<AmplitudeBreakpoint> {
    if env.len() == 0 {
        Seq::empty()
    } else {
        spec_process(
            spec_emphasize(
                env,
                EmphasisParameters {
                    ducking_before_length: 3000,
                    emphasis_length: 3000,
                    ducking_after_length: 3000,
                    ducking_amplitude: crate::android::WAVEFORM_DUCKING_AMPLITUDE,
                },
                env.len() as int,
            ),
            256,
            GAMEPAD_MIN_TIME_STEP as int,
            0,
        )
    }
}

/// Renders one envelope for a motor: emphasis rendered in, then resampled at
/// the gamepad's time step. An empty envelope stays empty.
fn motor_breakpoints(envelope: &Vec<AmplitudeBreakpoint>) -> (r: Vec<AmplitudeBreakpoint>)
    requires
        forall|i: int| 0 <= i < envelope@.len() ==> amp_bp_wf(#[trigger] envelope@[i]),
        crate::model::amp_times_monotone(envelope@),
        envelope@.len() > 0 ==> envelope@[envelope@.len() - 1].time
            <= crate::fixed::CLIP_TIME_LIMIT,
        envelope@.len() < 100_000_000,
    ensures
        r@ == spec_motor(envelope@),
        forall|i: int| 0 <= i < r@.len() ==> amp_bp_wf(#[trigger] r@[i]) && r@[i].emphasis is None,
        crate::model::amp_times_monotone(r@),
{
    if envelope.len() == 0 {
        let r: Vec<AmplitudeBreakpoint> = Vec::new();
        proof {
            assert(r@ =~= spec_motor(envelope@));
        }
        return r;
    }
    proof {
        assert(amp_bp_wf(envelope@[envelope@.len() - 1]));
    }
    let emphasized = emphasize(
        envelope,
        EmphasisParameters {
            ducking_before_length: 3000,
            emphasis_length: 3000,
            ducking_after_length: 3000,
            ducking_amplitude: crate::android::WAVEFORM_DUCKING_AMPLITUDE,
        },
    );
    let interpolator = Interpolator::new(InterpolationParameters::new(8, GAMEPAD_MIN_TIME_STEP));
    proof {
        assert(interpolator.parameters.q_depth == 256) by {
            reveal_with_fuel(crate::interpolation::spec_pow2, 9);
        }
    }
    let interpolated = interpolator.process(&emphasized);
    proof {
        if emphasized@.len() >= 2 {
            crate::interpolation::lemma_process_wf(
                emphasized@,
                interpolator.parameters.q_depth as int,
                interpolator.parameters.min_time_step as int,
                0,
            );
        }
    }
    interpolated
}

/// Converts a clip to a gamepad rumble: both motors' envelopes are rendered
/// and resampled, each is extended with the other's time points so that one
/// list of durations drives both motors, and the two waveforms are read off.
/// The three lists of the result have equal lengths, every duration is
/// positive, and every level is within the motor range.
pub fn convert_haptic_to_gamepad_rumble(data: &DataModel) -> (r: Result<GamepadRumble, Error>)
    requires
        clip_playable(*data),
        data.signals.continuous.envelopes.amplitude@.len() < 50_000_000,
        match data.signals.continuous.envelopes.frequency {
            Some(f) => f@.len() < 50_000_000,
            None => true,
        },
    ensures
        ({
            // both motors' envelopes rendered and resampled, each extended
            // with the other's time points, and the two waveforms read off
            let amps = data.signals.continuous.envelopes.amplitude@;
            let high_base = match data.signals.continuous.envelopes.frequency {
                Some(f) => spec_freq_as_amp(f@),
                None => Seq::empty(),
            };
            let low1 = spec_extend(spec_motor(amps), spec_times(spec_motor(high_base)), 0, 0);
            let high1 = spec_extend(spec_motor(high_base), spec_times(low1), 0, 0);
            let cl = spec_cells(low1, 0, 0, GAMEPAD_MAX_LEVEL as int);
            let ch = spec_cells(high1, 0, 0, GAMEPAD_MAX_LEVEL as int);
            &&& (r is Ok <==> cl.len() == ch.len())
            &&& match r {
                Ok(g) => {
                    &&& g.durations_ms@.len() == cl.len()
                    &&& g.low_frequency_motor_levels@.len() == cl.len()
                    &&& g.high_frequency_motor_levels@.len() == ch.len()
                    &&& forall|i: int|
                        0 <= i < cl.len() ==> #[trigger] g.durations_ms@[i] == cl[i].0
                            && g.low_frequency_motor_levels@[i] == cl[i].1
                            && g.high_frequency_motor_levels@[i] == ch[i].1
                },
                Err(_) => true,
            }
        }),
        match r {
            Ok(g) => {
                &&& g.durations_ms@.len() == g.low_frequency_motor_levels@.len()
                &&& g.durations_ms@.len() == g.high_frequency_motor_levels@.len()
                &&& forall|i: int| 0 <= i < g.durations_ms@.len() ==> #[trigger] g.durations_ms@[i] > 0
                &&& forall|i: int|
                    0 <= i < g.low_frequency_motor_levels@.len()
                        ==> 0 <= #[trigger] g.low_frequency_motor_levels@[i] <= GAMEPAD_MAX_LEVEL
                &&& forall|i: int|
                    0 <= i < g.high_frequency_motor_levels@.len()
                        ==> 0 <= #[trigger] g.high_frequency_motor_levels@[i] <= GAMEPAD_MAX_LEVEL
            },
            Err(_) => true,
        },
{
    proof {
        let amps = data.signals.continuous.envelopes.amplitude@;
        assert forall|i: int| 0 <= i < amps.len() implies amp_bp_wf(#[trigger] amps[i]) by {};
        assert(amp_bp_wf(amps[amps.len() - 1]));
    }
    let low = motor_breakpoints(&data.signals.continuous.envelopes.amplitude);
    let high_base = frequency_breakpoints_to_amplitude_breakpoints(
        &data.signals.continuous.envelopes.frequency,
    );
    proof {
        let fopt = data.signals.continuous.envelopes.frequency;
        match fopt {
            Some(f) => {
                assert(high_base@ =~= spec_freq_as_amp(f@));
                assert forall|i: int| 0 <= i < high_base@.len() implies amp_bp_wf(
                    #[trigger] high_base@[i],
                ) by {
                    assert(crate::model::freq_bp_ok(f@[i]));
                };
                assert forall|p: int, q: int| 0 <= p <= q < high_base@.len() implies
                    #[trigger] high_base@[p].time <= #[trigger] high_base@[q].time by {
                    assert(f@[p].time <= f@[q].time);
                };
                if high_base@.len() > 0 {
                    assert(crate::model::freq_bp_ok(f@[f@.len() - 1]));
                }
            },
            None => {
                assert(high_base@ =~= Seq::<AmplitudeBreakpoint>::empty());
            },
        }
    }
    let high = motor_breakpoints(&high_base);
    let high_times = breakpoint_times(&high);
    proof {
        assert(high_times@ =~= spec_times(high@));
    }
    let low = extend_breakpoints(&low, &high_times);
    let low_times = breakpoint_times(&low);
    proof {
        assert(low_times@ =~= spec_times(low@));
    }
    let high = extend_breakpoints(&high, &low_times);
    proof {
        let amps = data.signals.continuous.envelopes.amplitude@;
        let hb = match &data.signals.continuous.envelopes.frequency {
            Some(f) => spec_freq_as_amp(f@),
            None => Seq::<AmplitudeBreakpoint>::empty(),
        };
        assert(low@ == spec_extend(spec_motor(amps), spec_times(spec_motor(hb)), 0, 0));
        assert(high@ == spec_extend(spec_motor(hb), spec_times(low@), 0, 0));
    }
    let low_waveform = Waveform::from_breakpoints(
        &low,
        WaveformConversionParameters { max_amplitude: GAMEPAD_MAX_LEVEL },
    );
    let high_waveform = Waveform::from_breakpoints(
        &high,
        WaveformConversionParameters { max_amplitude: GAMEPAD_MAX_LEVEL },
    );
    proof {
        let cl = spec_cells(low@, 0, 0, GAMEPAD_MAX_LEVEL as int);
        let ch = spec_cells(high@, 0, 0, GAMEPAD_MAX_LEVEL as int);
        assert forall|i: int|
            0 <= i < cl.len() implies low_waveform.timings@[i] == cl[i].0
                && low_waveform.amplitudes@[i] == cl[i].1 by {
            assert(low_waveform.timings@[i] == cl[i].0);
        };
        assert forall|i: int|
            0 <= i < ch.len() implies high_waveform.amplitudes@[i] == ch[i].1 by {
            assert(high_waveform.timings@[i] == ch[i].0);
        };
    }
    if low_waveform.timings.len() != high_waveform.timings.len() {
        return Err(Error::new("Internal error, waveform lengths don't match"));
    }
    Ok(
        GamepadRumble {
            durations_ms: low_waveform.timings,
            low_frequency_motor_levels: low_waveform.amplitudes,
            high_frequency_motor_levels: high_waveform.amplitudes,
        },
    )
}

} // verus!
