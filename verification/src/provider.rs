//! The event provider: a lazy, restartable iterator over a clip that yields
//! amplitude and frequency ramp events, with seeking and live modulation.

use vstd::prelude::*;
use crate::fixed::{spec_lerp, spec_round_div, SCALE};
use crate::model::{
    clip_wf, first_amp_at_or_after, first_freq_at_or_after, AmplitudeBreakpoint, DataModel,
    Emphasis, FrequencyBreakpoint,
};

verus! {

/// The minimum distance, in time units, between two breakpoints for them to
/// count as separate. Used when deciding whether a ramp up to the initial
/// breakpoint after a seek is worth an event of its own.
pub const MIN_BREAKPOINT_DISTANCE: i64 = 10;

/// An amplitude ramp: over `duration` starting at `time`, the amplitude
/// changes linearly to `amplitude`. An emphasis, when present, is played at
/// the start of the ramp.
#[derive(Clone, Copy, Debug, PartialEq)]
pub struct AmplitudeEvent {
    pub time: i64,
    pub duration: i64,
    pub amplitude: i64,
    pub emphasis: Option<Emphasis>,
}

/// A frequency ramp, like `AmplitudeEvent` but without emphasis.
#[derive(Clone, Copy, Debug, PartialEq, Eq, Structural)]
pub struct FrequencyEvent {
    pub time: i64,
    pub duration: i64,
    pub frequency: i64,
}

/// An event provided by the `HapticEventProvider`.
#[derive(Clone, Copy, Debug, PartialEq)]
pub enum Event {
    Amplitude(AmplitudeEvent),
    Frequency(FrequencyEvent),
}

impl Event {
    /// The intended start time of the event, in units from clip start.
    pub fn time(&self) -> (t: i64)
        ensures
            t == spec_event_time(*self),
    {
        match self {
            Event::Frequency(event) => event.time,
            Event::Amplitude(event) => event.time,
        }
    }

    /// An immediate ramp of the amplitude down to zero.
    pub fn immediate_stop_event() -> (e: Event)
        ensures
            e == Event::Amplitude(
                AmplitudeEvent { time: 0, duration: 0, amplitude: 0, emphasis: None },
            ),
    {
        Event::Amplitude(AmplitudeEvent { time: 0, duration: 0, amplitude: 0, emphasis: None })
    }
}

/// The start time of an event.
pub open spec fn spec_event_time(e: Event) -> int {
    match e {
        Event::Amplitude(a) => a.time as int,
        Event::Frequency(f) => f.time as int,
    }
}

/// The end of an event's ramp.
pub open spec fn spec_event_end(e: Event) -> int {
    match e {
        Event::Amplitude(a) => a.time + a.duration,
        Event::Frequency(f) => f.time + f.duration,
    }
}

/// A playback position within one envelope.
#[derive(Debug)]
pub enum EnvelopePosition {
    /// Before the envelope breakpoint at `index_of_initial_breakpoint`;
    /// `events` holds up to two synthetic ramps that lead up to it.
    BeforeInitial { events: Vec<Event>, index_of_initial_breakpoint: usize },
    /// The next event is the ramp from breakpoint `index` to its successor.
    InClip { index: usize },
    /// Only the closing ramp of the amplitude down to zero is left.
    AfterLast,
    /// No further events.
    Inactive,
}

/// The mathematical value of an `EnvelopePosition`.
pub enum PositionView {
    BeforeInitial { events: Seq<Event>, index: int },
    InClip { index: int },
    AfterLast,
    Inactive,
}

impl View for EnvelopePosition {
    type V = PositionView;

    open spec fn view(&self) -> PositionView {
        match self {
            EnvelopePosition::BeforeInitial { events, index_of_initial_breakpoint } =>
                PositionView::BeforeInitial {
                events: events@,
                index: *index_of_initial_breakpoint as int,
            },
            EnvelopePosition::InClip { index } => PositionView::InClip { index: *index as int },
            EnvelopePosition::AfterLast => PositionView::AfterLast,
            EnvelopePosition::Inactive => PositionView::Inactive,
        }
    }
}

/// A measure that shrinks along the recursion of the peek functions.
pub open spec fn spec_pos_rank(p: PositionView) -> int {
    match p {
        PositionView::BeforeInitial { events, index } => 3,
        PositionView::InClip { index } => 2,
        PositionView::AfterLast => 1,
        PositionView::Inactive => 0,
    }
}

//
// Modulation
//

/// The amplitude after multiplication: the factor is applied twice (the
/// playback layer takes a square root before driving the engine, so the
/// provider squares the factor to make the net effect linear), clamping to
/// zero after the first application and to full scale after the second.
pub open spec fn spec_amp_mul(a: int, m: int) -> int {
    let s1 = spec_round_div(a * m, SCALE as int);
    let s2 = if s1 >= 0 {
        s1
    } else {
        0
    };
    let s3 = spec_round_div(s2 * m, SCALE as int);
    if s3 <= SCALE {
        s3
    } else {
        SCALE as int
    }
}

/// A frequency after shifting, clamped to `[0, SCALE]`.
pub open spec fn spec_freq_shift(f: int, shift: int) -> int {
    let s = f + shift;
    if s < 0 {
        0
    } else if s > SCALE {
        SCALE as int
    } else {
        s
    }
}

/// An amplitude event with modulation applied: the amplitude and the
/// emphasis amplitude are multiplied, the emphasis frequency is shifted.
pub open spec fn spec_modulated_amp_event(e: AmplitudeEvent, m: int, shift: int) -> AmplitudeEvent {
    AmplitudeEvent {
        time: e.time,
        duration: e.duration,
        amplitude: spec_amp_mul(e.amplitude as int, m) as i64,
        emphasis: match e.emphasis {
            Some(em) => Some(
                Emphasis {
                    amplitude: spec_amp_mul(em.amplitude as int, m) as i64,
                    frequency: spec_freq_shift(em.frequency as int, shift) as i64,
                },
            ),
            None => None,
        },
    }
}

/// An event with modulation applied.
pub open spec fn spec_modulated_event(e: Event, m: int, shift: int) -> Event {
    match e {
        Event::Amplitude(a) => Event::Amplitude(spec_modulated_amp_event(a, m, shift)),
        Event::Frequency(f) => Event::Frequency(
            FrequencyEvent {
                time: f.time,
                duration: f.duration,
                frequency: spec_freq_shift(f.frequency as int, shift) as i64,
            },
        ),
    }
}

//
// Peeking, at the specification level
//

/// The ramp event from one amplitude breakpoint to the next.
pub open spec fn spec_amp_ramp(current: AmplitudeBreakpoint, next: AmplitudeBreakpoint) -> Event {
    Event::Amplitude(
        AmplitudeEvent {
            time: current.time,
            duration: (next.time - current.time) as i64,
            amplitude: next.amplitude,
            emphasis: current.emphasis,
        },
    )
}

/// The ramp event from one frequency breakpoint to the next.
pub open spec fn spec_freq_ramp(current: FrequencyBreakpoint, next: FrequencyBreakpoint) -> Event {
    Event::Frequency(
        FrequencyEvent {
            time: current.time,
            duration: (next.time - current.time) as i64,
            frequency: next.frequency,
        },
    )
}

/// The next raw amplitude event at a position, and the position after it.
pub open spec fn spec_peek_amp(s: Seq<AmplitudeBreakpoint>, pos: PositionView) -> (Option<Event>,
    PositionView,
)
    decreases spec_pos_rank(pos),
{
    match pos {
        PositionView::BeforeInitial { events, index } => {
            if events.len() > 0 {
                (
                    Some(events[0]),
                    PositionView::BeforeInitial {
                        events: events.subrange(1, events.len() as int),
                        index,
                    },
                )
            } else {
                spec_peek_amp(s, PositionView::InClip { index })
            }
        },
        PositionView::InClip { index } => {
            if 0 <= index < s.len() {
                if index + 1 < s.len() {
                    (
                        Some(spec_amp_ramp(s[index], s[index + 1])),
                        PositionView::InClip { index: index + 1 },
                    )
                } else {
                    spec_peek_amp(s, PositionView::AfterLast)
                }
            } else {
                spec_peek_amp(s, PositionView::AfterLast)
            }
        },
        PositionView::AfterLast => {
            if s.len() > 0 {
                let last = s[s.len() - 1];
                (
                    Some(
                        spec_amp_ramp(
                            last,
                            AmplitudeBreakpoint {
                                time: last.time,
                                amplitude: 0,
                                emphasis: None,
                            },
                        ),
                    ),
                    PositionView::Inactive,
                )
            } else {
                (None, PositionView::Inactive)
            }
        },
        PositionView::Inactive => (None, PositionView::Inactive),
    }
}

/// The next raw frequency event at a position, and the position after it.
/// The frequency envelope has no closing ramp.
pub open spec fn spec_peek_freq(s: Option<Seq<FrequencyBreakpoint>>, pos: PositionView) -> (Option<
    Event,
>, PositionView)
    decreases spec_pos_rank(pos),
{
    match pos {
        PositionView::BeforeInitial { events, index } => {
            if events.len() > 0 {
                (
                    Some(events[0]),
                    PositionView::BeforeInitial {
                        events: events.subrange(1, events.len() as int),
                        index,
                    },
                )
            } else {
                spec_peek_freq(s, PositionView::InClip { index })
            }
        },
        PositionView::InClip { index } => {
            match s {
                Some(env) => {
                    if 0 <= index && index + 1 < env.len() {
                        (
                            Some(spec_freq_ramp(env[index], env[index + 1])),
                            PositionView::InClip { index: index + 1 },
                        )
                    } else {
                        (None, PositionView::Inactive)
                    }
                },
                None => (None, PositionView::Inactive),
            }
        },
        PositionView::AfterLast => (None, PositionView::Inactive),
        PositionView::Inactive => (None, PositionView::Inactive),
    }
}

/// Whether a position yields nothing more for the amplitude envelope.
pub open spec fn spec_amp_pos_at_end(pos: PositionView) -> bool {
    pos is AfterLast || pos is Inactive
}

/// The provider's abstract state.
pub struct ProviderView {
    pub amps: Seq<AmplitudeBreakpoint>,
    pub freqs: Option<Seq<FrequencyBreakpoint>>,
    pub amp_pos: PositionView,
    pub freq_pos: PositionView,
    pub amp_mul: int,
    pub freq_shift: int,
}

/// The next modulated event of the provider, with the two positions after
/// it: the winning cursor (the one with the earlier event, amplitude winning
/// ties) advances, the other stays.
pub open spec fn spec_peek_event(v: ProviderView) -> (Option<Event>, PositionView, PositionView) {
    let (pa, na) = spec_peek_amp(v.amps, v.amp_pos);
    let (pf, nf) = if spec_amp_pos_at_end(v.amp_pos) {
        (None::<Event>, PositionView::Inactive)
    } else {
        spec_peek_freq(v.freqs, v.freq_pos)
    };
    match (pa, pf) {
        (None, None) => (None, PositionView::Inactive, PositionView::Inactive),
        (Some(ae), None) => (Some(spec_modulated_event(ae, v.amp_mul, v.freq_shift)), na, v.freq_pos),
        (None, Some(fe)) => (Some(spec_modulated_event(fe, v.amp_mul, v.freq_shift)), v.amp_pos, nf),
        (Some(ae), Some(fe)) => {
            if spec_event_time(ae) <= spec_event_time(fe) {
                (Some(spec_modulated_event(ae, v.amp_mul, v.freq_shift)), na, v.freq_pos)
            } else {
                (Some(spec_modulated_event(fe, v.amp_mul, v.freq_shift)), v.amp_pos, nf)
            }
        },
    }
}

//
// Seeking, at the specification level
//

/// The amplitude position after seeking to `t` (already clamped to zero or
/// more): the synthetic ramps up to the first breakpoint at or after `t`,
/// or the closing ramp when `t` lies past the whole envelope and playback
/// had begun.
pub open spec fn spec_amp_pos_for_seek(
    s: Seq<AmplitudeBreakpoint>,
    old_pos: PositionView,
    t: int,
) -> PositionView {
    let idx = first_amp_at_or_after(s, t);
    if idx < s.len() {
        let init = s[idx];
        if idx > 0 {
            let prev = s[idx - 1];
            let interp = spec_lerp(
                prev.time as int,
                init.time as int,
                prev.amplitude as int,
                init.amplitude as int,
                t,
            );
            let level = Event::Amplitude(
                AmplitudeEvent { time: t as i64, duration: 0, amplitude: interp as i64, emphasis: None },
            );
            if init.time - t > MIN_BREAKPOINT_DISTANCE {
                let ramp = Event::Amplitude(
                    AmplitudeEvent {
                        time: t as i64,
                        duration: (init.time - t) as i64,
                        amplitude: init.amplitude,
                        emphasis: None,
                    },
                );
                PositionView::BeforeInitial { events: seq![level, ramp], index: idx }
            } else {
                PositionView::BeforeInitial { events: seq![level], index: idx }
            }
        } else {
            let ramp = Event::Amplitude(
                AmplitudeEvent {
                    time: t as i64,
                    duration: (init.time - t) as i64,
                    amplitude: init.amplitude,
                    emphasis: None,
                },
            );
            PositionView::BeforeInitial { events: seq![ramp], index: idx }
        }
    } else {
        if old_pos is Inactive {
            PositionView::Inactive
        } else {
            PositionView::AfterLast
        }
    }
}

/// The frequency position after seeking to `t`, when a first breakpoint at
/// or after `t` exists.
pub open spec fn spec_freq_pos_found(s: Seq<FrequencyBreakpoint>, t: int) -> PositionView {
    let idx = first_freq_at_or_after(s, t);
    let init = s[idx];
    if idx > 0 {
        let prev = s[idx - 1];
        let interp = spec_lerp(
            prev.time as int,
            init.time as int,
            prev.frequency as int,
            init.frequency as int,
            t,
        );
        let level = Event::Frequency(
            FrequencyEvent { time: t as i64, duration: 0, frequency: interp as i64 },
        );
        if init.time - t > MIN_BREAKPOINT_DISTANCE {
            let ramp = Event::Frequency(
                FrequencyEvent {
                    time: t as i64,
                    duration: (init.time - t) as i64,
                    frequency: init.frequency,
                },
            );
            PositionView::BeforeInitial { events: seq![level, ramp], index: idx }
        } else {
            PositionView::BeforeInitial { events: seq![level], index: idx }
        }
    } else {
        let ramp = Event::Frequency(
            FrequencyEvent {
                time: t as i64,
                duration: (init.time - t) as i64,
                frequency: init.frequency,
            },
        );
        PositionView::BeforeInitial { events: seq![ramp], index: idx }
    }
}

/// The frequency position after seeking to `t`. When the amplitude cursor
/// has ended there is nothing to play; when the frequency envelope ends
/// before `t` but the amplitude goes on, the cursor is re-sought to the last
/// frequency breakpoint so that the held frequency is explicit.
pub open spec fn spec_freq_pos_for_seek(
    s: Option<Seq<FrequencyBreakpoint>>,
    amp_pos: PositionView,
    t: int,
) -> PositionView {
    if spec_amp_pos_at_end(amp_pos) {
        PositionView::Inactive
    } else {
        match s {
            None => PositionView::Inactive,
            Some(env) => {
                if first_freq_at_or_after(env, t) < env.len() {
                    spec_freq_pos_found(env, t)
                } else if env.len() > 0 {
                    spec_freq_pos_found(env, env[env.len() - 1].time as int)
                } else {
                    PositionView::Inactive
                }
            },
        }
    }
}

//
// State well-formedness
//

/// An event holds values that modulation can work on.
pub open spec fn spec_event_values_wf(e: Event) -> bool {
    match e {
        Event::Amplitude(a) => {
            &&& 0 <= a.amplitude <= SCALE
            &&& 0 <= a.duration <= crate::fixed::MAX_TIME
            &&& 0 <= a.time <= crate::fixed::MAX_TIME
            &&& match a.emphasis {
                Some(em) => 0 <= em.amplitude <= SCALE && 0 <= em.frequency <= SCALE,
                None => true,
            }
        },
        Event::Frequency(f) => {
            &&& 0 <= f.frequency <= SCALE
            &&& 0 <= f.duration <= crate::fixed::MAX_TIME
            &&& 0 <= f.time <= crate::fixed::MAX_TIME
        },
    }
}

/// A valid amplitude cursor: indices in range, pending ramps consistent and
/// ending no later than the initial breakpoint they lead to.
pub open spec fn spec_amp_pos_wf(s: Seq<AmplitudeBreakpoint>, pos: PositionView) -> bool {
    match pos {
        PositionView::BeforeInitial { events, index } => {
            &&& 0 <= index < s.len()
            &&& forall|i: int|
                0 <= i < events.len() ==> (#[trigger] events[i]) is Amplitude
                    && spec_event_values_wf(events[i]) && spec_event_end(events[i])
                    <= s[index].time
            &&& forall|i: int|
                0 <= i && i + 1 < events.len() ==> spec_event_end(#[trigger] events[i])
                    <= spec_event_time(events[i + 1])
        },
        PositionView::InClip { index } => 0 <= index < s.len(),
        PositionView::AfterLast => true,
        PositionView::Inactive => true,
    }
}

/// A valid frequency cursor: like the amplitude cursor, but it never enters
/// the closing-ramp state, and it only points anywhere when the envelope
/// exists.
pub open spec fn spec_freq_pos_wf(s: Option<Seq<FrequencyBreakpoint>>, pos: PositionView) -> bool {
    match pos {
        PositionView::BeforeInitial { events, index } => {
            &&& match s {
                Some(env) => 0 <= index < env.len() && forall|i: int|
                    0 <= i < events.len() ==> spec_event_end(#[trigger] events[i])
                        <= env[index].time,
                None => false,
            }
            &&& forall|i: int|
                0 <= i < events.len() ==> (#[trigger] events[i]) is Frequency
                    && spec_event_values_wf(events[i])
            &&& forall|i: int|
                0 <= i && i + 1 < events.len() ==> spec_event_end(#[trigger] events[i])
                    <= spec_event_time(events[i + 1])
        },
        PositionView::InClip { index } => match s {
            Some(env) => 0 <= index < env.len(),
            None => false,
        },
        PositionView::AfterLast => false,
        PositionView::Inactive => true,
    }
}

/// The provider invariant: valid envelopes, valid cursors, and a frequency
/// shift within its legal range.
pub open spec fn spec_state_wf(v: ProviderView) -> bool {
    &&& crate::model::amp_envelope_wf(v.amps)
    &&& match v.freqs {
        Some(f) => crate::model::freq_envelope_valid(f),
        None => true,
    }
    &&& spec_amp_pos_wf(v.amps, v.amp_pos)
    &&& spec_freq_pos_wf(v.freqs, v.freq_pos)
    &&& -SCALE <= v.freq_shift <= SCALE
}

//
// Executable modulation
//

/// An amplitude multiplied by `m` (fixed point), twice, with the clamps of
/// `spec_amp_mul`.
fn mul_amp(a: i64, m: i64) -> (r: i64)
    requires
        0 <= a <= SCALE,
    ensures
        r == spec_amp_mul(a as int, m as int),
        0 <= r <= SCALE,
{
    proof {
        assert((a as int) * (m as int) <= SCALE * 0x7fff_ffff_ffff_ffff) by (nonlinear_arith)
            requires 0 <= a <= SCALE && m <= 0x7fff_ffff_ffff_ffff;
        assert((a as int) * (m as int) >= SCALE * -0x8000_0000_0000_0000) by (nonlinear_arith)
            requires 0 <= a <= SCALE && m >= -0x8000_0000_0000_0000;
    }
    let p1: i128 = (a as i128) * (m as i128);
    let s1: i128 = crate::fixed::round_div_wide(p1, 100_000);
    let s2: i128 = if s1 < 0 {
        0
    } else {
        s1
    };
    proof {
        if s2 > 0 {
            // The first product was positive, so the factor is positive and
            // the intermediate stays below the factor itself.
            assert(p1 <= 0 ==> spec_round_div(p1 as int, 100_000) <= 0) by (nonlinear_arith);
            assert(p1 > 0);
            assert(m > 0) by (nonlinear_arith)
                requires p1 == (a as int) * (m as int) && p1 > 0 && a >= 0;
            assert((a as int) * (m as int) <= SCALE * (m as int)) by (nonlinear_arith)
                requires 0 <= a <= SCALE && m > 0;
            crate::fixed::lemma_round_div_monotone(p1 as int, SCALE * (m as int), SCALE as int);
            assert(SCALE * (m as int) == (m as int) * SCALE) by (nonlinear_arith);
            crate::fixed::lemma_round_div_exact(m as int, SCALE as int);
            assert(s2 <= m);
        }
    }
    if s2 > SCALE as i128 {
        proof {
            assert(m > SCALE);
            assert(s2 * (m as int) >= s2 * (SCALE as int)) by (nonlinear_arith)
                requires s2 > 0 && m > SCALE;
            assert(s2 * (SCALE as int) == s2 * (SCALE as int)) by (nonlinear_arith);
            crate::fixed::lemma_round_div_exact(s2 as int, SCALE as int);
            crate::fixed::lemma_round_div_monotone(
                s2 * (SCALE as int),
                s2 * (m as int),
                SCALE as int,
            );
            assert(spec_round_div(s2 * (m as int), SCALE as int) >= s2);
        }
        return SCALE;
    }
    proof {
        assert(s2 * (m as int) <= SCALE * 0x7fff_ffff_ffff_ffff) by (nonlinear_arith)
            requires 0 <= s2 <= SCALE && m <= 0x7fff_ffff_ffff_ffff;
        assert(s2 * (m as int) >= SCALE * -0x8000_0000_0000_0000) by (nonlinear_arith)
            requires 0 <= s2 <= SCALE && m >= -0x8000_0000_0000_0000;
    }
    let p2: i128 = s2 * (m as i128);
    let s3: i128 = crate::fixed::round_div_wide(p2, 100_000);
    proof {
        if s2 == 0 {
            assert(s3 == 0) by (nonlinear_arith)
                requires s3 == spec_round_div(0 * (m as int), 100_000);
        } else {
            assert(m > 0);
            assert(p2 > 0) by (nonlinear_arith)
                requires p2 == s2 * (m as int) && s2 > 0 && m > 0;
            assert(s3 >= 0) by (nonlinear_arith)
                requires s3 == spec_round_div(p2 as int, 100_000) && p2 > 0;
        }
    }
    if s3 > SCALE as i128 {
        SCALE
    } else {
        s3 as i64
    }
}

/// A frequency shifted by `shift` and clamped to the valid range.
fn shift_freq(f: i64, shift: i64) -> (r: i64)
    requires
        0 <= f <= SCALE,
        -SCALE <= shift <= SCALE,
    ensures
        r == spec_freq_shift(f as int, shift as int),
        0 <= r <= SCALE,
{
    let s = f + shift;
    if s < 0 {
        0
    } else if s > SCALE {
        SCALE
    } else {
        s
    }
}

/// Applies the amplitude multiplication and the frequency shift to an event.
fn modulate_event(e: Event, m: i64, shift: i64) -> (r: Event)
    requires
        spec_event_values_wf(e),
        -SCALE <= shift <= SCALE,
    ensures
        r == spec_modulated_event(e, m as int, shift as int),
{
    match e {
        Event::Amplitude(a) => Event::Amplitude(
            AmplitudeEvent {
                time: a.time,
                duration: a.duration,
                amplitude: mul_amp(a.amplitude, m),
                emphasis: match a.emphasis {
                    Some(em) => Some(
                        Emphasis {
                            amplitude: mul_amp(em.amplitude, m),
                            frequency: shift_freq(em.frequency, shift),
                        },
                    ),
                    None => None,
                },
            },
        ),
        Event::Frequency(f) => Event::Frequency(
            FrequencyEvent {
                time: f.time,
                duration: f.duration,
                frequency: shift_freq(f.frequency, shift),
            },
        ),
    }
}

/// A raw peeked amplitude event is in bounds and leaves a valid cursor.
pub proof fn lemma_peek_amp_wf(s: Seq<AmplitudeBreakpoint>, pos: PositionView)
    requires
        crate::model::amp_envelope_wf(s),
        spec_amp_pos_wf(s, pos),
    ensures
        ({
            let (e, np) = spec_peek_amp(s, pos);
            &&& match e {
                Some(ev) => spec_event_values_wf(ev) && ev is Amplitude,
                None => np is Inactive,
            }
            &&& spec_amp_pos_wf(s, np)
        }),
    decreases spec_pos_rank(pos),
{
    match pos {
        PositionView::BeforeInitial { events, index } => {
            if events.len() > 0 {
                assert(spec_event_values_wf(events[0]));
                let sub = events.subrange(1, events.len() as int);
                assert forall|i: int| 0 <= i < sub.len() implies (#[trigger] sub[i]) is Amplitude
                    && spec_event_values_wf(sub[i]) && spec_event_end(sub[i])
                    <= s[index].time by {
                    assert(sub[i] == events[i + 1]);
                };
                assert forall|i: int| 0 <= i && i + 1 < sub.len() implies spec_event_end(
                    #[trigger] sub[i],
                ) <= spec_event_time(sub[i + 1]) by {
                    assert(sub[i] == events[i + 1]);
                    assert(sub[i + 1] == events[i + 2]);
                };
            } else {
                lemma_peek_amp_wf(s, PositionView::InClip { index });
            }
        },
        PositionView::InClip { index } => {
            if 0 <= index < s.len() {
                if index + 1 < s.len() {
                    assert(crate::model::amp_bp_wf(s[index]));
                    assert(crate::model::amp_bp_wf(s[index + 1]));
                    assert(s[index].time <= s[index + 1].time);
                } else {
                    lemma_peek_amp_wf(s, PositionView::AfterLast);
                }
            } else {
                lemma_peek_amp_wf(s, PositionView::AfterLast);
            }
        },
        PositionView::AfterLast => {
            if s.len() > 0 {
                assert(crate::model::amp_bp_wf(s[s.len() - 1]));
            }
        },
        PositionView::Inactive => {},
    }
}

/// A raw peeked frequency event is in bounds and leaves a valid cursor.
pub proof fn lemma_peek_freq_wf(s: Option<Seq<FrequencyBreakpoint>>, pos: PositionView)
    requires
        match s {
            Some(f) => crate::model::freq_envelope_valid(f),
            None => true,
        },
        spec_freq_pos_wf(s, pos),
    ensures
        ({
            let (e, np) = spec_peek_freq(s, pos);
            &&& match e {
                Some(ev) => spec_event_values_wf(ev) && ev is Frequency,
                None => np is Inactive,
            }
            &&& spec_freq_pos_wf(s, np)
        }),
    decreases spec_pos_rank(pos),
{
    match pos {
        PositionView::BeforeInitial { events, index } => {
            if events.len() > 0 {
                assert(spec_event_values_wf(events[0]));
                let sub = events.subrange(1, events.len() as int);
                assert forall|i: int| 0 <= i < sub.len() implies (#[trigger] sub[i]) is Frequency
                    && spec_event_values_wf(sub[i]) by {
                    assert(sub[i] == events[i + 1]);
                };
                match s {
                    Some(env) => {
                        assert forall|i: int| 0 <= i < sub.len() implies spec_event_end(
                            #[trigger] sub[i],
                        ) <= env[index].time by {
                            assert(sub[i] == events[i + 1]);
                        };
                    },
                    None => {},
                }
                assert forall|i: int| 0 <= i && i + 1 < sub.len() implies spec_event_end(
                    #[trigger] sub[i],
                ) <= spec_event_time(sub[i + 1]) by {
                    assert(sub[i] == events[i + 1]);
                    assert(sub[i + 1] == events[i + 2]);
                };
            } else {
                lemma_peek_freq_wf(s, PositionView::InClip { index });
            }
        },
        PositionView::InClip { index } => {
            match s {
                Some(env) => {
                    if 0 <= index && index + 1 < env.len() {
                        assert(crate::model::freq_bp_ok(env[index]));
                        assert(crate::model::freq_bp_ok(env[index + 1]));
                        assert(env[index].time <= env[index + 1].time);
                    }
                },
                None => {},
            }
        },
        PositionView::AfterLast => {},
        PositionView::Inactive => {},
    }
}

/// The time of the next event of a well-formed provider state stays within
/// the clip's time range.
pub proof fn lemma_peek_event_time_bounds(v: ProviderView)
    requires
        spec_state_wf(v),
    ensures
        match spec_peek_event(v).0 {
            Some(e) => 0 <= spec_event_time(e) <= crate::fixed::MAX_TIME,
            None => true,
        },
{
    lemma_peek_amp_wf(v.amps, v.amp_pos);
    lemma_peek_freq_wf(v.freqs, v.freq_pos);
}

/// Copies the pending events after the first.
fn tail_events(events: &Vec<Event>) -> (r: Vec<Event>)
    requires
        events@.len() > 0,
    ensures
        r@ == events@.subrange(1, events@.len() as int),
{
    let mut r: Vec<Event> = Vec::new();
    let mut i: usize = 1;
    while i < events.len()
        invariant
            1 <= i <= events@.len(),
            r@ == events@.subrange(1, i as int),
        decreases events@.len() - i,
    {
        r.push(events[i]);
        proof {
            assert(r@ =~= events@.subrange(1, i + 1));
        }
        i += 1;
    }
    proof {
        assert(r@ =~= events@.subrange(1, events@.len() as int));
    }
    r
}

/// Copies an envelope position.
fn duplicate_position(p: &EnvelopePosition) -> (r: EnvelopePosition)
    ensures
        r@ == p@,
{
    match p {
        EnvelopePosition::BeforeInitial { events, index_of_initial_breakpoint } => {
            let mut evs: Vec<Event> = Vec::new();
            let mut i: usize = 0;
            while i < events.len()
                invariant
                    i <= events@.len(),
                    evs@ == events@.take(i as int),
                decreases events@.len() - i,
            {
                evs.push(events[i]);
                proof {
                    assert(evs@ =~= events@.take(i + 1));
                }
                i += 1;
            }
            proof {
                assert(evs@ =~= events@);
            }
            EnvelopePosition::BeforeInitial {
                events: evs,
                index_of_initial_breakpoint: *index_of_initial_breakpoint,
            }
        },
        EnvelopePosition::InClip { index } => EnvelopePosition::InClip { index: *index },
        EnvelopePosition::AfterLast => EnvelopePosition::AfterLast,
        EnvelopePosition::Inactive => EnvelopePosition::Inactive,
    }
}

/// Provides haptic events from a haptic clip, one per call, in time order.
///
/// After a seek, up to two synthetic events per envelope ramp up to the
/// first regular breakpoint. Within the clip each event is the ramp from one
/// breakpoint to the next. At the end, one event ramps the amplitude down
/// to zero; the frequency holds its last value.
pub struct HapticEventProvider {
    pub clip: DataModel,
    pub amplitude_position: EnvelopePosition,
    pub frequency_position: EnvelopePosition,
    pub amplitude_multiplication: i64,
    pub frequency_shift: i64,
}

impl View for HapticEventProvider {
    type V = ProviderView;

    open spec fn view(&self) -> ProviderView {
        ProviderView {
            amps: self.clip.signals.continuous.envelopes.amplitude@,
            freqs: match self.clip.signals.continuous.envelopes.frequency {
                Some(f) => Some(f@),
                None => None,
            },
            amp_pos: self.amplitude_position@,
            freq_pos: self.frequency_position@,
            amp_mul: self.amplitude_multiplication as int,
            freq_shift: self.frequency_shift as int,
        }
    }
}

/// The amplitude position that a seek to `t` produces.
fn amp_pos_for_seek(
    envelope: &Vec<AmplitudeBreakpoint>,
    old_pos: &EnvelopePosition,
    t: i64,
) -> (r: EnvelopePosition)
    requires
        crate::model::amp_envelope_wf(envelope@),
        t >= 0,
    ensures
        r@ == spec_amp_pos_for_seek(envelope@, old_pos@, t as int),
        spec_amp_pos_wf(envelope@, r@),
{
    let idx = crate::model::find_first_amp_at_or_after(envelope, t);
    proof {
        crate::model::lemma_first_amp_at_or_after(envelope@, t as int);
    }
    if idx < envelope.len() {
        proof {
            assert(crate::model::amp_bp_wf(envelope@[idx as int]));
        }
        let init = envelope[idx];
        if idx > 0 {
            proof {
                assert(crate::model::amp_bp_wf(envelope@[idx - 1]));
                assert(envelope@[idx - 1].time < t);
            }
            let prev = envelope[idx - 1];
            let interp = crate::fixed::interpolate(
                prev.time,
                init.time,
                prev.amplitude,
                init.amplitude,
                t,
            );
            let mut events: Vec<Event> = Vec::new();
            events.push(
                Event::Amplitude(
                    AmplitudeEvent { time: t, duration: 0, amplitude: interp, emphasis: None },
                ),
            );
            if init.time - t > MIN_BREAKPOINT_DISTANCE {
                events.push(
                    Event::Amplitude(
                        AmplitudeEvent {
                            time: t,
                            duration: init.time - t,
                            amplitude: init.amplitude,
                            emphasis: None,
                        },
                    ),
                );
                proof {
                    assert(events@ =~= seq![
                        Event::Amplitude(
                            AmplitudeEvent {
                                time: t,
                                duration: 0,
                                amplitude: interp,
                                emphasis: None,
                            },
                        ),
                        Event::Amplitude(
                            AmplitudeEvent {
                                time: t,
                                duration: (init.time - t) as i64,
                                amplitude: init.amplitude,
                                emphasis: None,
                            },
                        ),
                    ]);
                }
            } else {
                proof {
                    assert(events@ =~= seq![
                        Event::Amplitude(
                            AmplitudeEvent {
                                time: t,
                                duration: 0,
                                amplitude: interp,
                                emphasis: None,
                            },
                        ),
                    ]);
                }
            }
            proof {
                assert forall|i: int| 0 <= i < events@.len() implies (#[trigger] events@[i])
                    is Amplitude && spec_event_values_wf(events@[i]) && spec_event_end(events@[i])
                    <= envelope@[idx as int].time by {
                    if i != 0 {
                        assert(i == 1);
                    }
                };
                assert forall|i: int| 0 <= i && i + 1 < events@.len() implies spec_event_end(
                    #[trigger] events@[i],
                ) <= spec_event_time(events@[i + 1]) by {
                    if i != 0 {
                        assert(i == 1);
                    }
                };
            }
            EnvelopePosition::BeforeInitial { events, index_of_initial_breakpoint: idx }
        } else {
            let mut events: Vec<Event> = Vec::new();
            events.push(
                Event::Amplitude(
                    AmplitudeEvent {
                        time: t,
                        duration: init.time - t,
                        amplitude: init.amplitude,
                        emphasis: None,
                    },
                ),
            );
            proof {
                assert(events@ =~= seq![
                    Event::Amplitude(
                        AmplitudeEvent {
                            time: t,
                            duration: (init.time - t) as i64,
                            amplitude: init.amplitude,
                            emphasis: None,
                        },
                    ),
                ]);
            }
            proof {
                assert forall|i: int| 0 <= i < events@.len() implies (#[trigger] events@[i])
                    is Amplitude && spec_event_values_wf(events@[i]) && spec_event_end(events@[i])
                    <= envelope@[idx as int].time by {
                    if i != 0 {
                        assert(i == 1);
                    }
                };
                assert forall|i: int| 0 <= i && i + 1 < events@.len() implies spec_event_end(
                    #[trigger] events@[i],
                ) <= spec_event_time(events@[i + 1]) by {
                    if i != 0 {
                        assert(i == 1);
                    }
                };
            }
            EnvelopePosition::BeforeInitial { events, index_of_initial_breakpoint: idx }
        }
    } else {
        match old_pos {
            EnvelopePosition::Inactive => EnvelopePosition::Inactive,
            _ => EnvelopePosition::AfterLast,
        }
    }
}

/// The frequency position of a seek that found a breakpoint at or after `t`.
fn freq_pos_found(envelope: &Vec<FrequencyBreakpoint>, t: i64) -> (r: EnvelopePosition)
    requires
        crate::model::freq_envelope_valid(envelope@),
        t >= 0,
        first_freq_at_or_after(envelope@, t as int) < envelope@.len(),
    ensures
        r@ == spec_freq_pos_found(envelope@, t as int),
        spec_freq_pos_wf(Some(envelope@), r@),
{
    let idx = crate::model::find_first_freq_at_or_after(envelope, t);
    proof {
        crate::model::lemma_first_freq_at_or_after(envelope@, t as int);
        assert(crate::model::freq_bp_ok(envelope@[idx as int]));
    }
    let init = envelope[idx];
    if idx > 0 {
        proof {
            assert(crate::model::freq_bp_ok(envelope@[idx - 1]));
            assert(envelope@[idx - 1].time < t);
        }
        let prev = envelope[idx - 1];
        let interp = crate::fixed::interpolate(
            prev.time,
            init.time,
            prev.frequency,
            init.frequency,
            t,
        );
        let mut events: Vec<Event> = Vec::new();
        events.push(
            Event::Frequency(FrequencyEvent { time: t, duration: 0, frequency: interp }),
        );
        if init.time - t > MIN_BREAKPOINT_DISTANCE {
            events.push(
                Event::Frequency(
                    FrequencyEvent { time: t, duration: init.time - t, frequency: init.frequency },
                ),
            );
            proof {
                assert(events@ =~= seq![
                    Event::Frequency(FrequencyEvent { time: t, duration: 0, frequency: interp }),
                    Event::Frequency(
                        FrequencyEvent {
                            time: t,
                            duration: (init.time - t) as i64,
                            frequency: init.frequency,
                        },
                    ),
                ]);
            }
        } else {
            proof {
                assert(events@ =~= seq![
                    Event::Frequency(FrequencyEvent { time: t, duration: 0, frequency: interp }),
                ]);
            }
        }
        proof {
            assert forall|i: int| 0 <= i < events@.len() implies (#[trigger] events@[i])
                is Frequency && spec_event_values_wf(events@[i]) && spec_event_end(events@[i])
                <= envelope@[idx as int].time by {
                if i != 0 {
                    assert(i == 1);
                }
            };
            assert forall|i: int| 0 <= i && i + 1 < events@.len() implies spec_event_end(
                #[trigger] events@[i],
            ) <= spec_event_time(events@[i + 1]) by {
                if i != 0 {
                    assert(i == 1);
                }
            };
        }
        EnvelopePosition::BeforeInitial { events, index_of_initial_breakpoint: idx }
    } else {
        let mut events: Vec<Event> = Vec::new();
        events.push(
            Event::Frequency(
                FrequencyEvent { time: t, duration: init.time - t, frequency: init.frequency },
            ),
        );
        proof {
            assert(events@ =~= seq![
                Event::Frequency(
                    FrequencyEvent {
                        time: t,
                        duration: (init.time - t) as i64,
                        frequency: init.frequency,
                    },
                ),
            ]);
        }
        proof {
            assert forall|i: int| 0 <= i < events@.len() implies (#[trigger] events@[i])
                is Frequency && spec_event_values_wf(events@[i]) && spec_event_end(events@[i])
                <= envelope@[idx as int].time by {
                if i != 0 {
                    assert(i == 1);
                }
            };
            assert forall|i: int| 0 <= i && i + 1 < events@.len() implies spec_event_end(
                #[trigger] events@[i],
            ) <= spec_event_time(events@[i + 1]) by {
                if i != 0 {
                    assert(i == 1);
                }
            };
        }
        EnvelopePosition::BeforeInitial { events, index_of_initial_breakpoint: idx }
    }
}

impl HapticEventProvider {
    /// Creates a provider positioned at the beginning of the clip, with no
    /// amplitude multiplication and no frequency shift.
    pub fn new(clip: DataModel) -> (r: HapticEventProvider)
        requires
            clip_wf(clip),
        ensures
            r@.amps == clip.signals.continuous.envelopes.amplitude@,
            r@.freqs == (match clip.signals.continuous.envelopes.frequency {
                Some(f) => Some(f@),
                None => None::<Seq<FrequencyBreakpoint>>,
            }),
            r@.amp_mul == SCALE,
            r@.freq_shift == 0,
            r@.amp_pos == spec_amp_pos_for_seek(r@.amps, PositionView::Inactive, 0),
            r@.freq_pos == spec_freq_pos_for_seek(r@.freqs, r@.amp_pos, 0),
            spec_state_wf(r@),
    {
        let mut result = HapticEventProvider {
            clip,
            amplitude_position: EnvelopePosition::Inactive,
            frequency_position: EnvelopePosition::Inactive,
            amplitude_multiplication: SCALE,
            frequency_shift: 0,
        };
        result.seek(0);
        result
    }

    /// Sets the factor applied to the amplitude of every provided event.
    pub fn set_amplitude_multiplication(&mut self, multiplication_factor: i64)
        ensures
            *final(self) == (HapticEventProvider {
                amplitude_multiplication: multiplication_factor,
                ..*old(self)
            }),
    {
        self.amplitude_multiplication = multiplication_factor;
    }

    /// Sets the shift applied to the frequency of every provided event.
    pub fn set_frequency_shift(&mut self, shift: i64)
        requires
            -SCALE <= shift <= SCALE,
        ensures
            *final(self) == (HapticEventProvider { frequency_shift: shift, ..*old(self) }),
    {
        self.frequency_shift = shift;
    }

    /// Moves to the end of the clip: one final ramp of the amplitude down to
    /// zero will be provided, then nothing.
    pub fn stop(&mut self)
        ensures
            final(self)@.amp_pos == PositionView::AfterLast,
            final(self)@.freq_pos == PositionView::Inactive,
            final(self).clip == old(self).clip,
            final(self)@.amps == old(self)@.amps,
            final(self)@.freqs == old(self)@.freqs,
            final(self)@.amp_mul == old(self)@.amp_mul,
            final(self)@.freq_shift == old(self)@.freq_shift,
            spec_state_wf(old(self)@) ==> spec_state_wf(final(self)@),
    {
        self.amplitude_position = EnvelopePosition::AfterLast;
        self.frequency_position = EnvelopePosition::Inactive;
    }

    /// Sets the playback position to `seek_time` units after the beginning
    /// of the clip (negative times clamp to the beginning).
    pub fn seek(&mut self, seek_time: i64)
        requires
            crate::model::amp_envelope_wf(old(self)@.amps),
            match old(self)@.freqs {
                Some(f) => crate::model::freq_envelope_valid(f),
                None => true,
            },
        ensures
            ({
                let t: int = if seek_time >= 0 {
                    seek_time as int
                } else {
                    0
                };
                &&& final(self)@.amp_pos == spec_amp_pos_for_seek(
                    old(self)@.amps,
                    old(self)@.amp_pos,
                    t,
                )
                &&& final(self)@.freq_pos == spec_freq_pos_for_seek(
                    old(self)@.freqs,
                    final(self)@.amp_pos,
                    t,
                )
            }),
            final(self).clip == old(self).clip,
            final(self)@.amps == old(self)@.amps,
            final(self)@.freqs == old(self)@.freqs,
            final(self)@.amp_mul == old(self)@.amp_mul,
            final(self)@.freq_shift == old(self)@.freq_shift,
            -SCALE <= old(self)@.freq_shift <= SCALE ==> spec_state_wf(final(self)@),
    {
        let t = if seek_time < 0 {
            0
        } else {
            seek_time
        };
        let new_amp = amp_pos_for_seek(
            &self.clip.signals.continuous.envelopes.amplitude,
            &self.amplitude_position,
            t,
        );
        let amp_at_end = match new_amp {
            EnvelopePosition::AfterLast => true,
            EnvelopePosition::Inactive => true,
            _ => false,
        };
        let new_freq: EnvelopePosition = if amp_at_end {
            EnvelopePosition::Inactive
        } else {
            match &self.clip.signals.continuous.envelopes.frequency {
                None => EnvelopePosition::Inactive,
                Some(env) => {
                    let idx = crate::model::find_first_freq_at_or_after(env, t);
                    if idx < env.len() {
                        freq_pos_found(env, t)
                    } else if env.len() > 0 {
                        let t2 = env[env.len() - 1].time;
                        proof {
                            crate::model::lemma_first_freq_at_or_after(env@, t2 as int);
                            assert(crate::model::freq_bp_ok(env@[env@.len() - 1]));
                            let j = first_freq_at_or_after(env@, t2 as int);
                            if j >= env@.len() {
                                assert(env@[env@.len() - 1].time < t2);
                            }
                        }
                        freq_pos_found(env, t2)
                    } else {
                        EnvelopePosition::Inactive
                    }
                },
            }
        };
        self.amplitude_position = new_amp;
        self.frequency_position = new_freq;
    }
}


impl HapticEventProvider {
    /// The next raw amplitude event at `position`, with the position that
    /// follows it.
    fn peek_amplitude_event(&self, position: &EnvelopePosition) -> (r: (Option<Event>,
        EnvelopePosition,
    ))
        requires
            crate::model::amp_envelope_wf(self@.amps),
        ensures
            r.0 == spec_peek_amp(self@.amps, position@).0,
            r.1@ == spec_peek_amp(self@.amps, position@).1,
        decreases spec_pos_rank(position@),
    {
        let envelope = &self.clip.signals.continuous.envelopes.amplitude;
        match position {
            EnvelopePosition::BeforeInitial { events, index_of_initial_breakpoint } => {
                if events.len() > 0 {
                    let ev = events[0];
                    let tail = tail_events(events);
                    (
                        Some(ev),
                        EnvelopePosition::BeforeInitial {
                            events: tail,
                            index_of_initial_breakpoint: *index_of_initial_breakpoint,
                        },
                    )
                } else {
                    self.peek_amplitude_event(
                        &EnvelopePosition::InClip { index: *index_of_initial_breakpoint },
                    )
                }
            },
            EnvelopePosition::InClip { index } => {
                let index = *index;
                if index < envelope.len() {
                    if index + 1 < envelope.len() {
                        proof {
                            assert(crate::model::amp_bp_wf(envelope@[index as int]));
                            assert(crate::model::amp_bp_wf(envelope@[index + 1]));
                            assert(envelope@[index as int].time <= envelope@[index + 1].time);
                        }
                        let cur = envelope[index];
                        let nxt = envelope[index + 1];
                        (
                            Some(
                                Event::Amplitude(
                                    AmplitudeEvent {
                                        time: cur.time,
                                        duration: nxt.time - cur.time,
                                        amplitude: nxt.amplitude,
                                        emphasis: cur.emphasis,
                                    },
                                ),
                            ),
                            EnvelopePosition::InClip { index: index + 1 },
                        )
                    } else {
                        self.peek_amplitude_event(&EnvelopePosition::AfterLast)
                    }
                } else {
                    self.peek_amplitude_event(&EnvelopePosition::AfterLast)
                }
            },
            EnvelopePosition::AfterLast => {
                if envelope.len() > 0 {
                    let last = envelope[envelope.len() - 1];
                    (
                        Some(
                            Event::Amplitude(
                                AmplitudeEvent {
                                    time: last.time,
                                    duration: 0,
                                    amplitude: 0,
                                    emphasis: last.emphasis,
                                },
                            ),
                        ),
                        EnvelopePosition::Inactive,
                    )
                } else {
                    (None, EnvelopePosition::Inactive)
                }
            },
            EnvelopePosition::Inactive => (None, EnvelopePosition::Inactive),
        }
    }

    /// The next raw frequency event at `position`, with the position that
    /// follows it.
    fn peek_frequency_event(&self, position: &EnvelopePosition) -> (r: (Option<Event>,
        EnvelopePosition,
    ))
        requires
            match self@.freqs {
                Some(f) => crate::model::freq_envelope_valid(f),
                None => true,
            },
        ensures
            r.0 == spec_peek_freq(self@.freqs, position@).0,
            r.1@ == spec_peek_freq(self@.freqs, position@).1,
        decreases spec_pos_rank(position@),
    {
        match position {
            EnvelopePosition::BeforeInitial { events, index_of_initial_breakpoint } => {
                if events.len() > 0 {
                    let ev = events[0];
                    let tail = tail_events(events);
                    (
                        Some(ev),
                        EnvelopePosition::BeforeInitial {
                            events: tail,
                            index_of_initial_breakpoint: *index_of_initial_breakpoint,
                        },
                    )
                } else {
                    self.peek_frequency_event(
                        &EnvelopePosition::InClip { index: *index_of_initial_breakpoint },
                    )
                }
            },
            EnvelopePosition::InClip { index } => {
                let index = *index;
                match &self.clip.signals.continuous.envelopes.frequency {
                    Some(envelope) => {
                        if index < envelope.len() && index + 1 < envelope.len() {
                            proof {
                                assert(crate::model::freq_bp_ok(envelope@[index as int]));
                                assert(crate::model::freq_bp_ok(envelope@[index + 1]));
                                assert(envelope@[index as int].time <= envelope@[index + 1].time);
                            }
                            let cur = envelope[index];
                            let nxt = envelope[index + 1];
                            (
                                Some(
                                    Event::Frequency(
                                        FrequencyEvent {
                                            time: cur.time,
                                            duration: nxt.time - cur.time,
                                            frequency: nxt.frequency,
                                        },
                                    ),
                                ),
                                EnvelopePosition::InClip { index: index + 1 },
                            )
                        } else {
                            (None, EnvelopePosition::Inactive)
                        }
                    },
                    None => (None, EnvelopePosition::Inactive),
                }
            },
            EnvelopePosition::AfterLast => (None, EnvelopePosition::Inactive),
            EnvelopePosition::Inactive => (None, EnvelopePosition::Inactive),
        }
    }

    /// The next modulated event and the cursor positions after it; the
    /// positions are returned rather than stored.
    fn peek_next(&self) -> (r: (Option<Event>, EnvelopePosition, EnvelopePosition))
        requires
            spec_state_wf(self@),
        ensures
            r.0 == spec_peek_event(self@).0,
            r.1@ == spec_peek_event(self@).1,
            r.2@ == spec_peek_event(self@).2,
    {
        proof {
            lemma_peek_amp_wf(self@.amps, self@.amp_pos);
            lemma_peek_freq_wf(self@.freqs, self@.freq_pos);
        }
        let (pa, na) = self.peek_amplitude_event(&self.amplitude_position);
        let amp_at_end = match &self.amplitude_position {
            EnvelopePosition::AfterLast => true,
            EnvelopePosition::Inactive => true,
            _ => false,
        };
        let (pf, nf) = if amp_at_end {
            (None, EnvelopePosition::Inactive)
        } else {
            self.peek_frequency_event(&self.frequency_position)
        };
        match (pa, pf) {
            (None, None) => (None, EnvelopePosition::Inactive, EnvelopePosition::Inactive),
            (Some(ae), None) => (
                Some(modulate_event(ae, self.amplitude_multiplication, self.frequency_shift)),
                na,
                duplicate_position(&self.frequency_position),
            ),
            (None, Some(fe)) => (
                Some(modulate_event(fe, self.amplitude_multiplication, self.frequency_shift)),
                duplicate_position(&self.amplitude_position),
                nf,
            ),
            (Some(ae), Some(fe)) => {
                if ae.time() <= fe.time() {
                    (
                        Some(
                            modulate_event(
                                ae,
                                self.amplitude_multiplication,
                                self.frequency_shift,
                            ),
                        ),
                        na,
                        duplicate_position(&self.frequency_position),
                    )
                } else {
                    (
                        Some(
                            modulate_event(
                                fe,
                                self.amplitude_multiplication,
                                self.frequency_shift,
                            ),
                        ),
                        duplicate_position(&self.amplitude_position),
                        nf,
                    )
                }
            },
        }
    }

    /// The start time of the next event, without advancing.
    pub fn peek_event_start_time(&self) -> (r: Option<i64>)
        requires
            spec_state_wf(self@),
        ensures
            r == (match spec_peek_event(self@).0 {
                Some(e) => Some(spec_event_time(e) as i64),
                None => None::<i64>,
            }),
    {
        let (e, _, _) = self.peek_next();
        match e {
            Some(ev) => Some(ev.time()),
            None => None,
        }
    }

    /// Returns the next event and advances the winning cursor.
    pub fn get_next_event(&mut self) -> (r: Option<Event>)
        requires
            spec_state_wf(old(self)@),
        ensures
            r == spec_peek_event(old(self)@).0,
            final(self)@.amp_pos == spec_peek_event(old(self)@).1,
            final(self)@.freq_pos == spec_peek_event(old(self)@).2,
            final(self).clip == old(self).clip,
            final(self)@.amps == old(self)@.amps,
            final(self)@.freqs == old(self)@.freqs,
            final(self)@.amp_mul == old(self)@.amp_mul,
            final(self)@.freq_shift == old(self)@.freq_shift,
            spec_state_wf(final(self)@),
    {
        proof {
            lemma_peek_amp_wf(self@.amps, self@.amp_pos);
            lemma_peek_freq_wf(self@.freqs, self@.freq_pos);
        }
        let (e, na, nf) = self.peek_next();
        self.amplitude_position = na;
        self.frequency_position = nf;
        e
    }
}

} // verus!
