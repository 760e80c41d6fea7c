//! Properties that hold across the library's operations, stated and proved
//! over the specification-level models.

use vstd::prelude::*;
use crate::fixed::{lemma_round_div_exact, spec_round_div, SCALE};
use crate::model::{
    amp_envelope_wf, amp_shifted, first_amp_at_or_after, lemma_first_amp_at_or_after,
    spec_truncated_amp, AmplitudeBreakpoint,
};
use crate::provider::{
    lemma_peek_amp_wf, lemma_peek_freq_wf, spec_amp_mul, spec_amp_pos_for_seek, spec_amp_pos_wf,
    spec_event_end, spec_event_time, spec_freq_pos_for_seek, spec_freq_pos_wf, spec_peek_amp,
    spec_peek_event, spec_peek_freq, spec_state_wf, Event, PositionView, ProviderView,
};

verus! {

/// Truncating a clip at the exact time of an existing breakpoint inserts no
/// interpolated breakpoint: the result is the time-shifted tail and nothing
/// else, so truncation there is idempotent in structure.
pub proof fn lemma_truncate_at_breakpoint_only_shifts(s: Seq<AmplitudeBreakpoint>, t: int, w: int)
    requires
        amp_envelope_wf(s),
        0 <= w < s.len(),
        s[w].time == t,
    ensures
        first_amp_at_or_after(s, t) < s.len(),
        spec_truncated_amp(s, t) == s.subrange(first_amp_at_or_after(s, t), s.len() as int).map(
            |k: int, b: AmplitudeBreakpoint| amp_shifted(b, t),
        ),
{
    lemma_first_amp_at_or_after(s, t);
    let idx = first_amp_at_or_after(s, t);
    if idx >= s.len() {
        assert(s[w].time < t);
    }
    assert(idx <= w) by {
        if idx > w {
            assert(s[w].time < t);
        }
    }
    assert(s[idx].time <= s[w].time);
    assert(s[idx].time >= t);
}

/// Multiplying an amplitude by one returns it unchanged.
pub proof fn lemma_amp_mul_neutral(a: int)
    requires
        0 <= a <= SCALE,
    ensures
        spec_amp_mul(a, SCALE as int) == a,
{
    lemma_round_div_exact(a, SCALE as int);
}

/// Multiplying an amplitude by zero yields exactly zero.
pub proof fn lemma_amp_mul_zero(a: int)
    ensures
        spec_amp_mul(a, 0) == 0,
{
    assert(a * 0 == 0) by (nonlinear_arith);
    assert(0 * 0 == 0) by (nonlinear_arith);
    assert(spec_round_div(0, SCALE as int) == 0) by (nonlinear_arith)
        requires SCALE == 100_000;
}

/// The multiplied amplitude always lands back in the valid range.
pub proof fn lemma_amp_mul_bounds(a: int, m: int)
    requires
        0 <= a <= SCALE,
    ensures
        0 <= spec_amp_mul(a, m) <= SCALE,
{
    let s1 = spec_round_div(a * m, SCALE as int);
    let s2: int = if s1 >= 0 {
        s1
    } else {
        0
    };
    if s2 == 0 {
        assert(0 * m == 0) by (nonlinear_arith);
        assert(spec_round_div(0, SCALE as int) == 0) by (nonlinear_arith)
            requires SCALE == 100_000;
    } else {
        assert(a * m <= 0 ==> spec_round_div(a * m, SCALE as int) <= 0) by (nonlinear_arith)
            requires SCALE == 100_000;
        assert(a * m > 0);
        assert(m > 0) by (nonlinear_arith)
            requires a * m > 0 && a >= 0;
        assert(s2 * m > 0) by (nonlinear_arith)
            requires s2 > 0 && m > 0;
        assert(s2 * m > 0 ==> spec_round_div(s2 * m, SCALE as int) >= 0) by (nonlinear_arith)
            requires SCALE == 100_000;
    }
}

/// With the multiplication set to zero, every amplitude event the provider
/// yields has amplitude exactly zero (and so has its emphasis).
pub proof fn lemma_zero_multiplication_silences(v: ProviderView)
    requires
        spec_state_wf(v),
        v.amp_mul == 0,
    ensures
        match spec_peek_event(v).0 {
            Some(Event::Amplitude(a)) => a.amplitude == 0 && match a.emphasis {
                Some(e) => e.amplitude == 0,
                None => true,
            },
            _ => true,
        },
{
    lemma_peek_amp_wf(v.amps, v.amp_pos);
    lemma_peek_freq_wf(v.freqs, v.freq_pos);
    match spec_peek_amp(v.amps, v.amp_pos).0 {
        Some(Event::Amplitude(raw)) => {
            lemma_amp_mul_zero(raw.amplitude as int);
            lemma_amp_mul_bounds(raw.amplitude as int, 0);
            match raw.emphasis {
                Some(e) => {
                    lemma_amp_mul_zero(e.amplitude as int);
                    lemma_amp_mul_bounds(e.amplitude as int, 0);
                },
                None => {},
            }
        },
        _ => {},
    }
}

/// Modulation is observable at the very next event: against the same state,
/// the event peeked with multiplication `m` is the event peeked with the
/// neutral multiplication, its amplitude (and emphasis amplitude) put
/// through the multiplication.
pub proof fn lemma_modulation_observable(v: ProviderView, m: int)
    requires
        spec_state_wf(v),
    ensures
        ({
            let with_m = spec_peek_event(ProviderView { amp_mul: m, ..v }).0;
            let neutral = spec_peek_event(ProviderView { amp_mul: SCALE as int, ..v }).0;
            match (with_m, neutral) {
                (Some(Event::Amplitude(am)), Some(Event::Amplitude(an))) => {
                    &&& am.time == an.time
                    &&& am.duration == an.duration
                    &&& am.amplitude == spec_amp_mul(an.amplitude as int, m)
                },
                (Some(Event::Frequency(_)), Some(Event::Frequency(_))) => true,
                (None, None) => true,
                _ => false,
            }
        }),
{
    lemma_peek_amp_wf(v.amps, v.amp_pos);
    lemma_peek_freq_wf(v.freqs, v.freq_pos);
    match spec_peek_amp(v.amps, v.amp_pos).0 {
        Some(Event::Amplitude(raw)) => {
            lemma_amp_mul_neutral(raw.amplitude as int);
            lemma_amp_mul_bounds(raw.amplitude as int, m);
            lemma_amp_mul_bounds(raw.amplitude as int, SCALE as int);
            match raw.emphasis {
                Some(e) => {
                    lemma_amp_mul_neutral(e.amplitude as int);
                    lemma_amp_mul_bounds(e.amplitude as int, m);
                },
                None => {},
            }
        },
        _ => {},
    }
}

/// Within one envelope, the next raw event begins no earlier than the end of
/// the current one: consecutive events of the same envelope never overlap.
proof fn lemma_peek_amp_ordered(s: Seq<AmplitudeBreakpoint>, pos: PositionView)
    requires
        amp_envelope_wf(s),
        spec_amp_pos_wf(s, pos),
    ensures
        ({
            let (e, np) = spec_peek_amp(s, pos);
            match e {
                Some(x) => match spec_peek_amp(s, np).0 {
                    Some(y) => spec_event_end(x) <= spec_event_time(y),
                    None => true,
                },
                None => true,
            }
        }),
    decreases crate::provider::spec_pos_rank(pos),
{
    reveal_with_fuel(spec_peek_amp, 4);
    lemma_peek_amp_wf(s, pos);
    let (e, np) = spec_peek_amp(s, pos);
    lemma_peek_amp_wf(s, np);
    match pos {
        PositionView::BeforeInitial { events, index } => {
            if events.len() > 0 {
                if events.len() > 1 {
                    assert(events.subrange(1, events.len() as int)[0] == events[1]);
                    assert(spec_event_end(events[0]) <= spec_event_time(events[1]));
                } else {
                    assert(spec_event_end(events[0]) <= s[index].time);
                    assert(s[index].time <= s[s.len() - 1].time);
                    if index + 1 < s.len() {
                        assert(s[index].time <= s[index + 1].time);
                    }
                }
            } else {
                lemma_peek_amp_ordered(s, PositionView::InClip { index });
            }
        },
        PositionView::InClip { index } => {
            if 0 <= index < s.len() {
                if index + 1 < s.len() {
                    assert(s[index].time <= s[index + 1].time);
                    if index + 2 < s.len() {
                        assert(s[index + 1].time <= s[index + 2].time);
                    } else {
                        assert(s[index + 1].time <= s[s.len() - 1].time);
                    }
                } else {
                    lemma_peek_amp_ordered(s, PositionView::AfterLast);
                }
            } else {
                lemma_peek_amp_ordered(s, PositionView::AfterLast);
            }
        },
        PositionView::AfterLast => {},
        PositionView::Inactive => {},
    }
}

/// The frequency-envelope counterpart of `lemma_peek_amp_ordered`.
proof fn lemma_peek_freq_ordered(s: Option<Seq<crate::model::FrequencyBreakpoint>>, pos: PositionView)
    requires
        match s {
            Some(f) => crate::model::freq_envelope_valid(f),
            None => true,
        },
        spec_freq_pos_wf(s, pos),
    ensures
        ({
            let (e, np) = spec_peek_freq(s, pos);
            match e {
                Some(x) => match spec_peek_freq(s, np).0 {
                    Some(y) => spec_event_end(x) <= spec_event_time(y),
                    None => true,
                },
                None => true,
            }
        }),
    decreases crate::provider::spec_pos_rank(pos),
{
    reveal_with_fuel(spec_peek_freq, 4);
    lemma_peek_freq_wf(s, pos);
    let (e, np) = spec_peek_freq(s, pos);
    lemma_peek_freq_wf(s, np);
    match pos {
        PositionView::BeforeInitial { events, index } => {
            if events.len() > 0 {
                if events.len() > 1 {
                    assert(events.subrange(1, events.len() as int)[0] == events[1]);
                    assert(spec_event_end(events[0]) <= spec_event_time(events[1]));
                } else {
                    match s {
                        Some(env) => {
                            assert(spec_event_end(events[0]) <= env[index].time);
                            if index + 1 < env.len() {
                                assert(env[index].time <= env[index + 1].time);
                            }
                        },
                        None => {},
                    }
                }
            } else {
                lemma_peek_freq_ordered(s, PositionView::InClip { index });
            }
        },
        PositionView::InClip { index } => {
            match s {
                Some(env) => {
                    if 0 <= index && index + 1 < env.len() {
                        assert(env[index].time <= env[index + 1].time);
                        if index + 2 < env.len() {
                            assert(env[index + 1].time <= env[index + 2].time);
                        }
                    }
                },
                None => {},
            }
        },
        PositionView::AfterLast => {},
        PositionView::Inactive => {},
    }
}

/// The event stream is ordered: of two consecutively provided events the
/// second never starts earlier than the first, and when both belong to the
/// same envelope the second starts no earlier than the first one ends, so
/// events of one envelope never overlap.
pub proof fn lemma_event_stream_ordered(v: ProviderView)
    requires
        spec_state_wf(v),
    ensures
        ({
            let (e1, a1, f1) = spec_peek_event(v);
            let (e2, a2, f2) = spec_peek_event(ProviderView { amp_pos: a1, freq_pos: f1, ..v });
            match (e1, e2) {
                (Some(x), Some(y)) => {
                    &&& spec_event_time(x) <= spec_event_time(y)
                    &&& (x is Amplitude && y is Amplitude ==> spec_event_end(x)
                        <= spec_event_time(y))
                    &&& (x is Frequency && y is Frequency ==> spec_event_end(x)
                        <= spec_event_time(y))
                },
                _ => true,
            }
        }),
{
    lemma_peek_amp_wf(v.amps, v.amp_pos);
    lemma_peek_freq_wf(v.freqs, v.freq_pos);
    lemma_peek_amp_ordered(v.amps, v.amp_pos);
    lemma_peek_freq_ordered(v.freqs, v.freq_pos);
    let (pa, na) = spec_peek_amp(v.amps, v.amp_pos);
    let (pf, nf) = if crate::provider::spec_amp_pos_at_end(v.amp_pos) {
        (None::<Event>, PositionView::Inactive)
    } else {
        spec_peek_freq(v.freqs, v.freq_pos)
    };
    let (e1, a1, f1) = spec_peek_event(v);
    let v2 = ProviderView { amp_pos: a1, freq_pos: f1, ..v };
    lemma_peek_amp_wf(v2.amps, v2.amp_pos);
    lemma_peek_freq_wf(v2.freqs, v2.freq_pos);
    match pa {
        Some(x) => {
            assert(spec_event_time(x) <= spec_event_end(x));
        },
        None => {},
    }
    match pf {
        Some(x) => {
            assert(spec_event_time(x) <= spec_event_end(x));
        },
        None => {},
    }
}

/// Seeking to a time within the clip makes the next amplitude event start
/// exactly at the seek target (a level change or a synthetic ramp from the
/// target to the next breakpoint).
pub proof fn lemma_seek_starts_at_target(v: ProviderView, t: int)
    requires
        spec_state_wf(v),
        0 <= t <= v.amps[v.amps.len() - 1].time,
    ensures
        ({
            let a1 = spec_amp_pos_for_seek(v.amps, v.amp_pos, t);
            match spec_peek_amp(v.amps, a1).0 {
                Some(e) => spec_event_time(e) == t && e is Amplitude,
                None => false,
            }
        }),
{
    lemma_first_amp_at_or_after(v.amps, t);
    let idx = first_amp_at_or_after(v.amps, t);
    if idx >= v.amps.len() {
        assert(v.amps[v.amps.len() - 1].time < t);
    }
}

/// Seeking past the end of the clip, after playback has begun, leaves only
/// the closing ramp: one amplitude event of zero amplitude and zero
/// duration, and nothing at all after it.
pub proof fn lemma_seek_past_end(v: ProviderView, t: int)
    requires
        spec_state_wf(v),
        t > v.amps[v.amps.len() - 1].time,
        !(v.amp_pos is Inactive),
    ensures
        ({
            let a1 = spec_amp_pos_for_seek(v.amps, v.amp_pos, t);
            let f1 = spec_freq_pos_for_seek(v.freqs, a1, t);
            let v2 = ProviderView { amp_pos: a1, freq_pos: f1, ..v };
            let (e, a2, f2) = spec_peek_event(v2);
            &&& a1 is AfterLast
            &&& f1 is Inactive
            &&& match e {
                Some(Event::Amplitude(a)) => a.amplitude == spec_amp_mul(0, v.amp_mul)
                    && a.duration == 0 && a.time == v.amps[v.amps.len() - 1].time,
                _ => false,
            }
            &&& spec_peek_event(ProviderView { amp_pos: a2, freq_pos: f2, ..v }).0 is None
        }),
{
    lemma_first_amp_at_or_after(v.amps, t);
    let idx = first_amp_at_or_after(v.amps, t);
    if idx < v.amps.len() {
        assert(v.amps[idx].time <= v.amps[v.amps.len() - 1].time);
    }
}

} // verus!
