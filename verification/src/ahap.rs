//! Export of a clip to the pattern format of platforms with native support
//! for time-varying curves and discrete transient events: piecewise-linear
//! intensity and sharpness curves chunked into short segments, continuous
//! events covering the clip, and one transient event per emphasis.
//!
//! Envelope values map to the engine's perceptual scale by a square root;
//! at emphasized breakpoints the intensity curve is ducked by a fixed
//! factor so the transient stands out.

use vstd::prelude::*;
use crate::fixed::{spec_round_div, MAX_TIME, SCALE};
use crate::model;
use crate::model::{AmplitudeBreakpoint, FrequencyBreakpoint};

verus! {

/// The longest continuous event the engine accepts: 30 seconds.
pub const MAX_CONTINUOUS_EVENT_DURATION: i64 = 3_000_000;

/// How much the intensity curve is ducked at an emphasized breakpoint, in
/// units: the square-rooted amplitude is scaled by one minus this.
pub const AMPLITUDE_DUCKING: i64 = 20_000;

/// The pattern's metadata.
#[derive(Debug, Clone, PartialEq)]
pub struct MetaData {
    pub project: String,
    pub created: String,
    pub description: String,
}

/// Identifies the constant parameters of an event.
#[derive(Debug, Clone, Copy, PartialEq, Eq, Structural)]
pub enum ParameterId {
    HapticIntensity,
    HapticSharpness,
}

/// Identifies the curves that modulate playback over time.
#[derive(Debug, Clone, Copy, PartialEq, Eq, Structural)]
pub enum DynamicParameterId {
    HapticIntensityControl,
    HapticSharpnessControl,
}

/// A constant parameter of an event.
#[derive(Debug, Clone, Copy, PartialEq, Eq, Structural)]
pub struct EventParameter {
    pub parameter_id: ParameterId,
    pub parameter_value: i64,
}

/// A single point of a parameter curve.
#[derive(Debug, Clone, Copy, PartialEq, Eq, Structural)]
pub struct ParameterCurveControlPoint {
    pub time: i64,
    pub parameter_value: i64,
}

/// A one-off change of a dynamic parameter.
#[derive(Debug, Clone, Copy, PartialEq, Eq, Structural)]
pub struct Parameter {
    pub parameter_id: DynamicParameterId,
    pub parameter_value: i64,
    pub time: i64,
}

/// A piecewise-linear curve over up to sixteen control points.
#[derive(Debug, Clone, PartialEq)]
pub struct ParameterCurve {
    pub parameter_id: DynamicParameterId,
    pub time: i64,
    pub parameter_curve_control_points: Vec<ParameterCurveControlPoint>,
}

/// A haptic event: either a continuous stretch of vibration whose intensity
/// and sharpness the curves modulate, or a discrete transient.
#[derive(Debug, Clone, PartialEq)]
pub enum Event {
    HapticContinuous { time: i64, event_duration: i64, event_parameters: Vec<EventParameter> },
    HapticTransient { time: i64, event_parameters: Vec<EventParameter> },
}

/// One entry of a pattern.
#[derive(Debug, Clone, PartialEq)]
pub enum Pattern {
    Event(Event),
    ParameterCurve(ParameterCurve),
}

/// The exported pattern.
#[derive(Debug, Clone, PartialEq)]
pub struct Ahap {
    /// The pattern format revision, in fixed-point units (1.0).
    pub version: i64,
    pub metadata: MetaData,
    pub pattern: Vec<Pattern>,
}

//
// Square root on fixed-point units
//

/// The largest integer whose square is at most `n`.
pub open spec fn spec_isqrt(n: nat) -> nat
    decreases n,
{
    if n == 0 {
        0
    } else {
        let p = spec_isqrt((n - 1) as nat);
        if (p + 1) * (p + 1) <= n {
            p + 1
        } else {
            p
        }
    }
}

/// What `spec_isqrt` returns: the floor of the square root.
pub proof fn lemma_isqrt(n: nat)
    ensures
        spec_isqrt(n) * spec_isqrt(n) <= n,
        n < (spec_isqrt(n) + 1) * (spec_isqrt(n) + 1),
    decreases n,
{
    if n > 0 {
        lemma_isqrt((n - 1) as nat);
        let p = spec_isqrt((n - 1) as nat);
        assert(((n - 1) as nat) < (p + 1) * (p + 1));
        if (p + 1) * (p + 1) <= n {
            assert(spec_isqrt(n) == p + 1);
            assert(n as int <= (p + 1) * (p + 1));
            assert((p + 1) * (p + 1) < ((p + 1) + 1) * ((p + 1) + 1)) by (nonlinear_arith)
                requires p >= 0;
            assert(n < (spec_isqrt(n) + 1) * (spec_isqrt(n) + 1));
        } else {
            assert(spec_isqrt(n) == p);
            assert(p * p <= n - 1);
            assert(n < (p + 1) * (p + 1));
        }
    } else {
        assert(n == 0);
        assert(spec_isqrt(n) == 0);
        assert(spec_isqrt(n) * spec_isqrt(n) <= n) by (nonlinear_arith)
            requires spec_isqrt(n) == 0 && n == 0;
        assert(n < (spec_isqrt(n) + 1) * (spec_isqrt(n) + 1)) by (nonlinear_arith)
            requires spec_isqrt(n) == 0 && n == 0;
    }
}

/// The floor square root is unique.
pub proof fn lemma_isqrt_unique(n: nat, r: nat)
    requires
        r * r <= n,
        n < (r + 1) * (r + 1),
    ensures
        r == spec_isqrt(n),
{
    lemma_isqrt(n);
    let q = spec_isqrt(n);
    if r < q {
        assert((r + 1) * (r + 1) <= q * q) by (nonlinear_arith)
            requires r + 1 <= q;
    }
    if q < r {
        assert((q + 1) * (q + 1) <= r * r) by (nonlinear_arith)
            requires q + 1 <= r;
    }
}

/// The square root of a normalized fixed-point value, as a fixed-point
/// value: the nearest integer to the real square root, computed as half of
/// the floor square root of four times the scaled value.
pub open spec fn spec_sqrt_units(a: int) -> int
    recommends
        a >= 0,
{
    (spec_isqrt((4 * a * SCALE) as nat) + 1) as int / 2
}

/// Computes `spec_sqrt_units`: the perceptual mapping of an envelope value.
pub fn sqrt_units(a: i64) -> (r: i64)
    requires
        0 <= a <= SCALE,
    ensures
        r == spec_sqrt_units(a as int),
        0 <= r <= SCALE,
{
    proof {
        assert(0 <= 4 * (a as int) * (SCALE as int) <= 40_000_000_000) by (nonlinear_arith)
            requires 0 <= a <= SCALE && SCALE == 100_000;
    }
    let n: i64 = 4 * a * SCALE;
    let mut lo: i64 = 0;
    let mut hi: i64 = 200_002;
    proof {
        assert((200_002 as int) * (200_002 as int) > 40_000_000_000) by (nonlinear_arith);
    }
    while lo + 1 < hi
        invariant
            0 <= lo < hi <= 200_002,
            n <= 40_000_000_000,
            lo * lo <= n,
            n < hi * hi,
        decreases hi - lo,
    {
        let mid = lo + (hi - lo) / 2;
        proof {
            assert(lo < mid < hi);
            assert(mid * mid <= 200_002 * 200_002) by (nonlinear_arith)
                requires 0 <= mid <= 200_002;
        }
        if mid * mid <= n {
            lo = mid;
        } else {
            hi = mid;
        }
    }
    proof {
        lemma_isqrt_unique(n as nat, lo as nat);
        assert(lo <= 200_000) by (nonlinear_arith)
            requires lo * lo <= 40_000_000_000 && lo >= 0;
    }
    (lo + 1) / 2
}

/// The value of the intensity curve at a breakpoint: the square-rooted
/// amplitude, ducked at emphasized breakpoints.
pub open spec fn spec_intensity(bp: AmplitudeBreakpoint) -> int {
    if bp.emphasis is Some {
        spec_round_div(spec_sqrt_units(bp.amplitude as int) * (SCALE - AMPLITUDE_DUCKING), SCALE as int)
    } else {
        spec_sqrt_units(bp.amplitude as int)
    }
}

/// Computes `spec_intensity`.
fn intensity_of(bp: &AmplitudeBreakpoint) -> (r: i64)
    requires
        0 <= bp.amplitude <= SCALE,
    ensures
        r == spec_intensity(*bp),
        0 <= r <= SCALE,
{
    let s = sqrt_units(bp.amplitude);
    if bp.emphasis.is_some() {
        proof {
            assert(0 <= s * (SCALE - AMPLITUDE_DUCKING) <= 100_000 * 80_000) by (nonlinear_arith)
                requires 0 <= s <= 100_000 && SCALE == 100_000 && AMPLITUDE_DUCKING == 20_000;
            crate::fixed::lemma_round_div_range(
                s * (SCALE - AMPLITUDE_DUCKING),
                SCALE as int,
                s as int,
            );
            assert(s * (SCALE - AMPLITUDE_DUCKING) <= s * (SCALE as int)) by (nonlinear_arith)
                requires s >= 0 && AMPLITUDE_DUCKING >= 0;
        }
        crate::fixed::round_div(s * (SCALE - AMPLITUDE_DUCKING), SCALE)
    } else {
        s
    }
}

//
// The pattern pieces
//

/// The continuous events covering `total` units of clip: full-length
/// segments, the last one holding the remainder.
pub open spec fn spec_continuous_count(total: int) -> int {
    if total <= 0 {
        0
    } else {
        (total + MAX_CONTINUOUS_EVENT_DURATION - 1) / (MAX_CONTINUOUS_EVENT_DURATION as int)
    }
}

/// The breakpoints that carry emphasis, in order, from index `i` on.
pub open spec fn spec_emphasized(s: Seq<AmplitudeBreakpoint>, i: int) -> Seq<AmplitudeBreakpoint>
    decreases s.len() - i,
{
    if i < 0 || i >= s.len() {
        Seq::empty()
    } else {
        match s[i].emphasis {
            Some(_) => seq![s[i]] + spec_emphasized(s, i + 1),
            None => spec_emphasized(s, i + 1),
        }
    }
}

/// How many parameter curves a list of `n` envelope points needs, at
/// sixteen points per curve with the joining point repeated.
pub open spec fn spec_curve_count(n: int) -> int {
    if n <= 1 {
        0
    } else {
        (n - 1 + 14) / 15
    }
}

/// The control points of curve `c` over an envelope of `n` points: a window
/// of up to sixteen source points starting at `15 c`.
pub open spec fn spec_curve_len(n: int, c: int) -> int {
    if n - 15 * c < 16 {
        n - 15 * c
    } else {
        16
    }
}

/// Whether a pattern entry is a transient event.
pub open spec fn spec_is_transient(p: Pattern) -> bool {
    match p {
        Pattern::Event(Event::HapticTransient { .. }) => true,
        _ => false,
    }
}

/// Whether `cv` is intensity curve `c` of the amplitude envelope `s`: its
/// control points are the square-rooted amplitudes of the window of up to
/// sixteen envelope points starting at point `15 c`.
pub open spec fn spec_amp_curve(s: Seq<AmplitudeBreakpoint>, c: int, p: Pattern) -> bool {
    p matches Pattern::ParameterCurve(cv) && ({
    &&& cv.parameter_id == DynamicParameterId::HapticIntensityControl
    &&& cv.time == s[15 * c].time
    &&& cv.parameter_curve_control_points@.len() == spec_curve_len(s.len() as int, c)
    &&& forall|j: int|
        0 <= j < cv.parameter_curve_control_points@.len()
            ==> #[trigger] cv.parameter_curve_control_points@[j] == (ParameterCurveControlPoint {
            time: s[15 * c + j].time,
            parameter_value: spec_intensity(s[15 * c + j]) as i64,
        })
    })
}

/// Whether `cv` is sharpness curve `c` of the frequency envelope `s`: its
/// control points are the square-rooted frequencies of the window of up to
/// sixteen envelope points starting at point `15 c`.
pub open spec fn spec_sharp_curve(s: Seq<FrequencyBreakpoint>, c: int, p: Pattern) -> bool {
    p matches Pattern::ParameterCurve(cv) && ({
    &&& cv.parameter_id == DynamicParameterId::HapticSharpnessControl
    &&& cv.time == s[15 * c].time
    &&& cv.parameter_curve_control_points@.len() == spec_curve_len(s.len() as int, c)
    &&& forall|j: int|
        0 <= j < cv.parameter_curve_control_points@.len()
            ==> #[trigger] cv.parameter_curve_control_points@[j] == (ParameterCurveControlPoint {
            time: s[15 * c + j].time,
            parameter_value: spec_sqrt_units(s[15 * c + j].frequency as int) as i64,
        })
    })
}

/// Whether `p` is continuous event `k` of a clip lasting `total` units:
/// a full-length segment, or the remainder for the last one, at constant
/// full intensity and zero sharpness (the curves do the modulating).
pub open spec fn spec_continuous_event(total: int, k: int, p: Pattern) -> bool {
    p matches Pattern::Event(Event::HapticContinuous { time, event_duration, event_parameters }) && time == k
        * MAX_CONTINUOUS_EVENT_DURATION && event_duration == (if (k + 1)
        * MAX_CONTINUOUS_EVENT_DURATION <= total {
        MAX_CONTINUOUS_EVENT_DURATION as int
    } else {
        total - k * MAX_CONTINUOUS_EVENT_DURATION
    }) && event_parameters@.len() == 2 && event_parameters@[0] == (EventParameter {
        parameter_id: ParameterId::HapticIntensity,
        parameter_value: SCALE,
    }) && event_parameters@[1] == (EventParameter {
        parameter_id: ParameterId::HapticSharpness,
        parameter_value: 0,
    })
}

/// Whether `p` is the transient event of the emphasized breakpoint `bp`:
/// fired at the breakpoint's time, with the square-rooted emphasis amplitude
/// as intensity and the emphasis frequency as sharpness.
pub open spec fn spec_transient_event(bp: AmplitudeBreakpoint, p: Pattern) -> bool {
    p matches Pattern::Event(Event::HapticTransient { time, event_parameters }) && time == bp.time
        && event_parameters@.len() == 2 && event_parameters@[0] == (EventParameter {
        parameter_id: ParameterId::HapticIntensity,
        parameter_value: spec_sqrt_units(spec_emphasis_amp(bp)) as i64,
    }) && event_parameters@[1] == (EventParameter {
        parameter_id: ParameterId::HapticSharpness,
        parameter_value: spec_emphasis_freq(bp) as i64,
    })
}

/// Builds the intensity curves of the amplitude envelope.
fn amp_curves(s: &Vec<AmplitudeBreakpoint>) -> (r: Vec<ParameterCurve>)
    requires
        s@.len() < 100_000_000,
        forall|k: int| 0 <= k < s@.len() ==> 0 <= (#[trigger] s@[k]).amplitude <= SCALE,
    ensures
        r@.len() == spec_curve_count(s@.len() as int),
        forall|c: int|
            0 <= c < r@.len() ==> {
                let cv = #[trigger] r@[c];
                &&& cv.parameter_id == DynamicParameterId::HapticIntensityControl
                &&& cv.time == s@[15 * c].time
                &&& cv.parameter_curve_control_points@.len() == spec_curve_len(
                    s@.len() as int,
                    c,
                )
                &&& forall|j: int|
                    0 <= j < cv.parameter_curve_control_points@.len()
                        ==> #[trigger] cv.parameter_curve_control_points@[j]
                        == (ParameterCurveControlPoint {
                        time: s@[15 * c + j].time,
                        parameter_value: spec_intensity(s@[15 * c + j]) as i64,
                    })
            },
{
    let mut r: Vec<ParameterCurve> = Vec::new();
    if s.len() <= 1 {
        return r;
    }
    let ghost n = s@.len() as int;
    let count: usize = (s.len() - 2) / 15 + 1;
    proof {
        assert(count == spec_curve_count(n)) by (nonlinear_arith)
            requires n >= 2 && count == (n - 2) / 15 + 1;
        assert(15 * (count - 1) <= n - 2) by (nonlinear_arith)
            requires n >= 2 && count == (n - 2) / 15 + 1;
    }
    let mut c: usize = 0;
    while c < count
        invariant
            s@.len() == n,
            s@.len() >= 2,
            n < 100_000_000,
            forall|k: int| 0 <= k < s@.len() ==> 0 <= (#[trigger] s@[k]).amplitude <= SCALE,
            r@.len() == c,
            count == spec_curve_count(n),
            15 * (count - 1) <= n - 2,
            c <= count,
            forall|cc: int|
                0 <= cc < c ==> {
                    let cv = #[trigger] r@[cc];
                    &&& cv.parameter_id == DynamicParameterId::HapticIntensityControl
                    &&& cv.time == s@[15 * cc].time
                    &&& cv.parameter_curve_control_points@.len() == spec_curve_len(n, cc)
                    &&& forall|j: int|
                        0 <= j < cv.parameter_curve_control_points@.len()
                            ==> #[trigger] cv.parameter_curve_control_points@[j]
                            == (ParameterCurveControlPoint {
                            time: s@[15 * cc + j].time,
                            parameter_value: spec_intensity(s@[15 * cc + j]) as i64,
                        })
                },
        decreases count - c,
    {
        proof {
            assert(15 * c <= 15 * (count - 1)) by (nonlinear_arith)
                requires 0 <= c <= count - 1;
            assert(15 * c <= n - 2);
            assert(15 * c < 100_000_000);
        }
        let start = 15 * c;
        proof {
            assert(start + 1 < n);
        }
        let mut points: Vec<ParameterCurveControlPoint> = Vec::new();
        let mut j: usize = 0;
        while j < 16 && start + j < s.len()
            invariant
                s@.len() == n,
                n < 100_000_000,
                forall|k: int| 0 <= k < s@.len() ==> 0 <= (#[trigger] s@[k]).amplitude <= SCALE,
                start == 15 * c,
                start + 1 < n,
                j <= 16,
                start + j <= n,
                points@.len() == j,
                forall|p: int|
                    0 <= p < j ==> #[trigger] points@[p] == (ParameterCurveControlPoint {
                        time: s@[start + p].time,
                        parameter_value: spec_intensity(s@[start + p]) as i64,
                    }),
            decreases n - j,
        {
            let bp = &s[start + j];
            points.push(
                ParameterCurveControlPoint { time: bp.time, parameter_value: intensity_of(bp) },
            );
            j += 1;
        }
        r.push(
            ParameterCurve {
                parameter_id: DynamicParameterId::HapticIntensityControl,
                time: s[start].time,
                parameter_curve_control_points: points,
            },
        );
        c += 1;
    }
    r
}

/// Builds the sharpness curves of the frequency envelope: the square root
/// of each frequency.
fn sharp_curves(s: &Vec<FrequencyBreakpoint>) -> (r: Vec<ParameterCurve>)
    requires
        s@.len() < 100_000_000,
        forall|k: int| 0 <= k < s@.len() ==> 0 <= (#[trigger] s@[k]).frequency <= SCALE,
    ensures
        r@.len() == spec_curve_count(s@.len() as int),
        forall|c: int|
            0 <= c < r@.len() ==> {
                let cv = #[trigger] r@[c];
                &&& cv.parameter_id == DynamicParameterId::HapticSharpnessControl
                &&& cv.time == s@[15 * c].time
                &&& cv.parameter_curve_control_points@.len() == spec_curve_len(
                    s@.len() as int,
                    c,
                )
                &&& forall|j: int|
                    0 <= j < cv.parameter_curve_control_points@.len()
                        ==> #[trigger] cv.parameter_curve_control_points@[j]
                        == (ParameterCurveControlPoint {
                        time: s@[15 * c + j].time,
                        parameter_value: spec_sqrt_units(s@[15 * c + j].frequency as int) as i64,
                    })
            },
{
    let mut r: Vec<ParameterCurve> = Vec::new();
    if s.len() <= 1 {
        return r;
    }
    let ghost n = s@.len() as int;
    let count: usize = (s.len() - 2) / 15 + 1;
    proof {
        assert(count == spec_curve_count(n)) by (nonlinear_arith)
            requires n >= 2 && count == (n - 2) / 15 + 1;
        assert(15 * (count - 1) <= n - 2) by (nonlinear_arith)
            requires n >= 2 && count == (n - 2) / 15 + 1;
    }
    let mut c: usize = 0;
    while c < count
        invariant
            s@.len() == n,
            s@.len() >= 2,
            n < 100_000_000,
            forall|k: int| 0 <= k < s@.len() ==> 0 <= (#[trigger] s@[k]).frequency <= SCALE,
            r@.len() == c,
            count == spec_curve_count(n),
            15 * (count - 1) <= n - 2,
            c <= count,
            forall|cc: int|
                0 <= cc < c ==> {
                    let cv = #[trigger] r@[cc];
                    &&& cv.parameter_id == DynamicParameterId::HapticSharpnessControl
                    &&& cv.time == s@[15 * cc].time
                    &&& cv.parameter_curve_control_points@.len() == spec_curve_len(n, cc)
                    &&& forall|j: int|
                        0 <= j < cv.parameter_curve_control_points@.len()
                            ==> #[trigger] cv.parameter_curve_control_points@[j]
                            == (ParameterCurveControlPoint {
                            time: s@[15 * cc + j].time,
                            parameter_value: spec_sqrt_units(
                                s@[15 * cc + j].frequency as int,
                            ) as i64,
                        })
                },
        decreases count - c,
    {
        proof {
            assert(15 * c <= 15 * (count - 1)) by (nonlinear_arith)
                requires 0 <= c <= count - 1;
            assert(15 * c <= n - 2);
            assert(15 * c < 100_000_000);
        }
        let start = 15 * c;
        proof {
            assert(start + 1 < n);
        }
        let mut points: Vec<ParameterCurveControlPoint> = Vec::new();
        let mut j: usize = 0;
        while j < 16 && start + j < s.len()
            invariant
                s@.len() == n,
                n < 100_000_000,
                forall|k: int| 0 <= k < s@.len() ==> 0 <= (#[trigger] s@[k]).frequency <= SCALE,
                start == 15 * c,
                start + 1 < n,
                j <= 16,
                start + j <= n,
                points@.len() == j,
                forall|p: int|
                    0 <= p < j ==> #[trigger] points@[p] == (ParameterCurveControlPoint {
                        time: s@[start + p].time,
                        parameter_value: spec_sqrt_units(s@[start + p].frequency as int) as i64,
                    }),
            decreases n - j,
        {
            let bp = &s[start + j];
            points.push(
                ParameterCurveControlPoint {
                    time: bp.time,
                    parameter_value: sqrt_units(bp.frequency),
                },
            );
            j += 1;
        }
        r.push(
            ParameterCurve {
                parameter_id: DynamicParameterId::HapticSharpnessControl,
                time: s[start].time,
                parameter_curve_control_points: points,
            },
        );
        c += 1;
    }
    r
}

/// The emphasis amplitude of a breakpoint, or zero when it has none.
pub open spec fn spec_emphasis_amp(bp: AmplitudeBreakpoint) -> int {
    match bp.emphasis {
        Some(e) => e.amplitude as int,
        None => 0,
    }
}

/// The emphasis frequency of a breakpoint, or zero when it has none.
pub open spec fn spec_emphasis_freq(bp: AmplitudeBreakpoint) -> int {
    match bp.emphasis {
        Some(e) => e.frequency as int,
        None => 0,
    }
}

/// Builds the continuous events covering `total` time units: segments of
/// the maximum duration, the last one holding the remainder, each at full
/// constant intensity and zero sharpness (the curves do the modulating).
fn continuous_events(total: i64) -> (r: Vec<Event>)
    requires
        0 <= total <= MAX_TIME,
    ensures
        r@.len() == spec_continuous_count(total as int),
        forall|k: int|
            0 <= k < r@.len() ==> (#[trigger] r@[k] matches Event::HapticContinuous {
                time,
                event_duration,
                event_parameters,
            } && time == k * MAX_CONTINUOUS_EVENT_DURATION && event_duration == (if (k + 1)
                * MAX_CONTINUOUS_EVENT_DURATION <= total {
                MAX_CONTINUOUS_EVENT_DURATION as int
            } else {
                total - k * MAX_CONTINUOUS_EVENT_DURATION
            }) && event_parameters@.len() == 2 && event_parameters@[0] == (EventParameter {
                parameter_id: ParameterId::HapticIntensity,
                parameter_value: SCALE,
            }) && event_parameters@[1] == (EventParameter {
                parameter_id: ParameterId::HapticSharpness,
                parameter_value: 0,
            })),
{
    let mut r: Vec<Event> = Vec::new();
    if total <= 0 {
        return r;
    }
    let count: i64 = (total + MAX_CONTINUOUS_EVENT_DURATION - 1) / MAX_CONTINUOUS_EVENT_DURATION;
    proof {
        assert(count <= 340) by (nonlinear_arith)
            requires
                count == (total as int + MAX_CONTINUOUS_EVENT_DURATION - 1) / (
                MAX_CONTINUOUS_EVENT_DURATION as int),
                0 < total <= MAX_TIME,
                MAX_TIME == 1_000_000_000,
                MAX_CONTINUOUS_EVENT_DURATION == 3_000_000;
    }
    let mut k: i64 = 0;
    while k < count
        invariant
            0 < total <= MAX_TIME,
            count == spec_continuous_count(total as int),
            0 <= count <= 340,
            0 <= k <= count,
            r@.len() == k,
            forall|p: int|
                0 <= p < k ==> (#[trigger] r@[p] matches Event::HapticContinuous {
                    time,
                    event_duration,
                    event_parameters,
                } && time == p * MAX_CONTINUOUS_EVENT_DURATION && event_duration == (if (p + 1)
                    * MAX_CONTINUOUS_EVENT_DURATION <= total {
                    MAX_CONTINUOUS_EVENT_DURATION as int
                } else {
                    total - p * MAX_CONTINUOUS_EVENT_DURATION
                }) && event_parameters@.len() == 2 && event_parameters@[0] == (EventParameter {
                    parameter_id: ParameterId::HapticIntensity,
                    parameter_value: SCALE,
                }) && event_parameters@[1] == (EventParameter {
                    parameter_id: ParameterId::HapticSharpness,
                    parameter_value: 0,
                })),
        decreases count - k,
    {
        let time = k * MAX_CONTINUOUS_EVENT_DURATION;
        let duration: i64 = if (k + 1) * MAX_CONTINUOUS_EVENT_DURATION <= total {
            MAX_CONTINUOUS_EVENT_DURATION
        } else {
            proof {
                assert(k * MAX_CONTINUOUS_EVENT_DURATION < total) by (nonlinear_arith)
                    requires
                        0 <= k,
                        k < (total as int + MAX_CONTINUOUS_EVENT_DURATION - 1) / (
                        MAX_CONTINUOUS_EVENT_DURATION as int),
                        0 < total,
                        MAX_CONTINUOUS_EVENT_DURATION == 3_000_000;
            }
            total - k * MAX_CONTINUOUS_EVENT_DURATION
        };
        let mut params: Vec<EventParameter> = Vec::new();
        params.push(
            EventParameter { parameter_id: ParameterId::HapticIntensity, parameter_value: SCALE },
        );
        params.push(
            EventParameter { parameter_id: ParameterId::HapticSharpness, parameter_value: 0 },
        );
        r.push(Event::HapticContinuous { time, event_duration: duration, event_parameters: params });
        k += 1;
    }
    r
}

/// Builds one transient event per emphasized breakpoint: the square-rooted
/// emphasis amplitude as intensity, the emphasis frequency as sharpness.
fn transient_events(s: &Vec<AmplitudeBreakpoint>) -> (r: Vec<Event>)
    requires
        forall|k: int| 0 <= k < s@.len() ==> crate::model::amp_bp_wf(#[trigger] s@[k]),
    ensures
        ({
            let em = spec_emphasized(s@, 0);
            &&& r@.len() == em.len()
            &&& forall|k: int|
                0 <= k < em.len() ==> (#[trigger] r@[k] matches Event::HapticTransient {
                    time,
                    event_parameters,
                } && time == em[k].time && event_parameters@.len() == 2 && event_parameters@[0]
                    == (EventParameter {
                    parameter_id: ParameterId::HapticIntensity,
                    parameter_value: spec_sqrt_units(spec_emphasis_amp(em[k])) as i64,
                }) && event_parameters@[1] == (EventParameter {
                    parameter_id: ParameterId::HapticSharpness,
                    parameter_value: spec_emphasis_freq(em[k]) as i64,
                }))
        }),
{
    let mut r: Vec<Event> = Vec::new();
    let ghost mut em_prefix: Seq<AmplitudeBreakpoint> = Seq::empty();
    let mut i: usize = 0;
    while i < s.len()
        invariant
            i <= s@.len(),
            forall|k: int| 0 <= k < s@.len() ==> crate::model::amp_bp_wf(#[trigger] s@[k]),
            spec_emphasized(s@, 0) =~= em_prefix + spec_emphasized(s@, i as int),
            r@.len() == em_prefix.len(),
            forall|k: int|
                0 <= k < em_prefix.len() ==> (#[trigger] r@[k] matches Event::HapticTransient {
                    time,
                    event_parameters,
                } && time == em_prefix[k].time && event_parameters@.len() == 2
                    && event_parameters@[0] == (EventParameter {
                    parameter_id: ParameterId::HapticIntensity,
                    parameter_value: spec_sqrt_units(spec_emphasis_amp(em_prefix[k])) as i64,
                }) && event_parameters@[1] == (EventParameter {
                    parameter_id: ParameterId::HapticSharpness,
                    parameter_value: spec_emphasis_freq(em_prefix[k]) as i64,
                })),
        decreases s@.len() - i,
    {
        let bp = s[i];
        match bp.emphasis {
            Some(e) => {
                proof {
                    assert(crate::model::amp_bp_wf(s@[i as int]));
                }
                let mut params: Vec<EventParameter> = Vec::new();
                params.push(
                    EventParameter {
                        parameter_id: ParameterId::HapticIntensity,
                        parameter_value: sqrt_units(e.amplitude),
                    },
                );
                params.push(
                    EventParameter {
                        parameter_id: ParameterId::HapticSharpness,
                        parameter_value: e.frequency,
                    },
                );
                r.push(Event::HapticTransient { time: bp.time, event_parameters: params });
                proof {
                    em_prefix = em_prefix.push(s@[i as int]);
                    assert(spec_emphasized(s@, 0) =~= em_prefix + spec_emphasized(s@, i + 1));
                }
            },
            None => {
                proof {
                    assert(spec_emphasized(s@, 0) =~= em_prefix + spec_emphasized(s@, i + 1));
                }
            },
        }
        i += 1;
    }
    proof {
        assert(spec_emphasized(s@, 0) =~= em_prefix);
    }
    r
}

impl Ahap {
    /// Converts a clip into the platform pattern: intensity curves from the
    /// amplitude envelope (chunked at sixteen points, each curve starting
    /// with the previous one's last point), sharpness curves from the
    /// frequency envelope, continuous events covering the clip duration in
    /// segments of at most thirty seconds, and one transient event per
    /// emphasized breakpoint, in that order.
    #[verifier::loop_isolation(false)]
    pub fn from_data_model(clip: model::DataModel) -> (r: Ahap)
        requires
            model::clip_wf(clip),
            clip.signals.continuous.envelopes.amplitude@.len() < 100_000_000,
            match clip.signals.continuous.envelopes.frequency {
                Some(f) => f@.len() < 100_000_000,
                None => true,
            },
        ensures
            r.version == SCALE,
            r.metadata.project@ == clip.metadata.project@,
            r.metadata.created@ == clip.metadata.author@,
            r.metadata.description@ == clip.metadata.description@,
            ({
                let amps = clip.signals.continuous.envelopes.amplitude@;
                let nf: int = match clip.signals.continuous.envelopes.frequency {
                    Some(f) => spec_curve_count(f@.len() as int),
                    None => 0,
                };
                let na = spec_curve_count(amps.len() as int);
                let total = amps[amps.len() - 1].time as int;
                let nc = spec_continuous_count(total);
                let em = spec_emphasized(amps, 0);
                &&& r.pattern@.len() == na + nf + nc + em.len()
                &&& forall|c: int|
                    0 <= c < na ==> spec_amp_curve(amps, c, #[trigger] r.pattern@[c])
                &&& match clip.signals.continuous.envelopes.frequency {
                    Some(f) => forall|c: int|
                        0 <= c < spec_curve_count(f@.len() as int) ==> spec_sharp_curve(
                            f@,
                            c,
                            #[trigger] r.pattern@[na + c],
                        ),
                    None => true,
                }
                &&& forall|k: int|
                    0 <= k < nc ==> spec_continuous_event(total, k, #[trigger] r.pattern@[na + nf
                        + k])
                &&& forall|k: int|
                    0 <= k < em.len() ==> spec_transient_event(
                        em[k],
                        #[trigger] r.pattern@[na + nf + nc + k],
                    )
            }),
    {
        let amps = &clip.signals.continuous.envelopes.amplitude;
        let ghost amps_v = amps@;
        let ghost na = spec_curve_count(amps_v.len() as int);
        let ghost nf: int = match &clip.signals.continuous.envelopes.frequency {
            Some(f) => spec_curve_count(f@.len() as int),
            None => 0,
        };
        let ghost gtotal = amps_v[amps_v.len() - 1].time as int;
        let ghost nc = spec_continuous_count(gtotal);
        let ghost em = spec_emphasized(amps_v, 0);
        proof {
            assert(model::amp_bp_wf(amps_v[amps_v.len() - 1]));
            assert forall|k: int| 0 <= k < amps_v.len() implies 0 <= (#[trigger] amps_v[k]).amplitude
                <= SCALE by {
                assert(model::amp_bp_wf(amps_v[k]));
            };
        }
        let mut pattern: Vec<Pattern> = Vec::new();
        let mut curves = amp_curves(amps);
        while curves.len() > 0
            invariant
                pattern@.len() + curves@.len() == na,
                forall|c: int|
                    0 <= c < pattern@.len() ==> spec_amp_curve(amps_v, c, #[trigger] pattern@[c]),
                forall|c: int|
                    0 <= c < curves@.len() ==> spec_amp_curve(
                        amps_v,
                        pattern@.len() + c,
                        Pattern::ParameterCurve(#[trigger] curves@[c]),
                    ),
            decreases curves@.len(),
        {
            let ghost oldp = pattern@;
            let ghost olds = curves@;
            let c = curves.remove(0);
            pattern.push(Pattern::ParameterCurve(c));
            proof {
                assert(c == olds[0]);
                assert(forall|x: int| 0 <= x < oldp.len() ==> #[trigger] pattern@[x] == oldp[x]);
                assert(pattern@[oldp.len() as int] == Pattern::ParameterCurve(c));
                assert(forall|x: int| 0 <= x < curves@.len() ==> #[trigger] curves@[x] == olds[x + 1]);
            }
        }
        match &clip.signals.continuous.envelopes.frequency {
            None => {},
            Some(freqs) => {
                let ghost freqs_v = freqs@;
                proof {
                    assert forall|k: int| 0 <= k < freqs_v.len() implies 0 <= (
                    #[trigger] freqs_v[k]).frequency <= SCALE by {
                        assert(model::freq_bp_ok(freqs_v[k]));
                    };
                }
                let mut scurves = sharp_curves(freqs);
                while scurves.len() > 0
                    invariant
                        na <= pattern@.len(),
                        pattern@.len() + scurves@.len() == na + nf,
                        nf == spec_curve_count(freqs_v.len() as int),
                        forall|c: int|
                            0 <= c < na ==> spec_amp_curve(amps_v, c, #[trigger] pattern@[c]),
                        forall|c: int|
                            na <= c < pattern@.len() ==> spec_sharp_curve(
                                freqs_v,
                                c - na,
                                #[trigger] pattern@[c],
                            ),
                        forall|c: int|
                            0 <= c < scurves@.len() ==> spec_sharp_curve(
                                freqs_v,
                                pattern@.len() - na + c,
                                Pattern::ParameterCurve(#[trigger] scurves@[c]),
                            ),
                    decreases scurves@.len(),
                {
                    let ghost oldp = pattern@;
                    let ghost olds = scurves@;
                    let c = scurves.remove(0);
                    pattern.push(Pattern::ParameterCurve(c));
                    proof {
                        assert(c == olds[0]);
                        assert(forall|x: int| 0 <= x < oldp.len() ==> #[trigger] pattern@[x] == oldp[x]);
                        assert(pattern@[oldp.len() as int] == Pattern::ParameterCurve(c));
                        assert(forall|x: int| 0 <= x < scurves@.len() ==> #[trigger] scurves@[x] == olds[x + 1]);
                        assert forall|cc: int| na <= cc < pattern@.len() implies spec_sharp_curve(
                            freqs_v,
                            cc - na,
                            pattern@[cc],
                        ) by {
                            if cc < oldp.len() {
                                assert(pattern@[cc] == oldp[cc]);
                            } else {
                                assert(spec_sharp_curve(
                                    freqs_v,
                                    oldp.len() - na,
                                    Pattern::ParameterCurve(olds[0]),
                                ));
                            }
                        }
                    }
                }
            },
        }
        let total = amps[amps.len() - 1].time;
        let mut events = continuous_events(total);
        while events.len() > 0
            invariant
                na + nf <= pattern@.len(),
                pattern@.len() + events@.len() == na + nf + nc,
                forall|c: int|
                    0 <= c < na ==> spec_amp_curve(amps_v, c, #[trigger] pattern@[c]),
                match clip.signals.continuous.envelopes.frequency {
                    Some(f) => forall|c: int|
                        0 <= c < spec_curve_count(f@.len() as int) ==> spec_sharp_curve(
                            f@,
                            c,
                            #[trigger] pattern@[na + c],
                        ),
                    None => true,
                },
                forall|k: int|
                    na + nf <= k < pattern@.len() ==> spec_continuous_event(
                        gtotal,
                        k - na - nf,
                        #[trigger] pattern@[k],
                    ),
                forall|k: int|
                    0 <= k < events@.len() ==> spec_continuous_event(
                        gtotal,
                        pattern@.len() - na - nf + k,
                        Pattern::Event(#[trigger] events@[k]),
                    ),
            decreases events@.len(),
        {
            let ghost oldp = pattern@;
            let ghost olds = events@;
            let e = events.remove(0);
            pattern.push(Pattern::Event(e));
            proof {
                assert(e == olds[0]);
                assert(forall|x: int| 0 <= x < oldp.len() ==> #[trigger] pattern@[x] == oldp[x]);
                assert(pattern@[oldp.len() as int] == Pattern::Event(e));
                assert(forall|x: int| 0 <= x < events@.len() ==> #[trigger] events@[x] == olds[x + 1]);
                assert forall|c: int| 0 <= c < na implies spec_amp_curve(
                    amps_v,
                    c,
                    pattern@[c],
                ) by {
                    assert(pattern@[c] == oldp[c]);
                }
                if clip.signals.continuous.envelopes.frequency is Some {
                    let fv = clip.signals.continuous.envelopes.frequency->Some_0@;
                    assert forall|c: int|
                        0 <= c < spec_curve_count(fv.len() as int) implies spec_sharp_curve(
                        fv,
                        c,
                        #[trigger] pattern@[na + c],
                    ) by {
                        assert(pattern@[na + c] == oldp[na + c]);
                    }
                }
                assert forall|k: int|
                    na + nf <= k < pattern@.len() implies spec_continuous_event(
                    gtotal,
                    k - na - nf,
                    pattern@[k],
                ) by {
                    if k < oldp.len() {
                        assert(pattern@[k] == oldp[k]);
                    } else {
                        assert(spec_continuous_event(
                            gtotal,
                            oldp.len() - na - nf,
                            Pattern::Event(olds[0]),
                        ));
                        assert(pattern@[k] == Pattern::Event(e));
                    }
                }
            }
        }
        let mut transients = transient_events(amps);
        while transients.len() > 0
            invariant
                na + nf + nc <= pattern@.len(),
                pattern@.len() + transients@.len() == na + nf + nc + em.len(),
                forall|c: int|
                    0 <= c < na ==> spec_amp_curve(amps_v, c, #[trigger] pattern@[c]),
                match clip.signals.continuous.envelopes.frequency {
                    Some(f) => forall|c: int|
                        0 <= c < spec_curve_count(f@.len() as int) ==> spec_sharp_curve(
                            f@,
                            c,
                            #[trigger] pattern@[na + c],
                        ),
                    None => true,
                },
                forall|k: int|
                    na + nf <= k < na + nf + nc ==> spec_continuous_event(
                        gtotal,
                        k - na - nf,
                        #[trigger] pattern@[k],
                    ),
                forall|k: int|
                    na + nf + nc <= k < pattern@.len() ==> spec_transient_event(
                        em[k - na - nf - nc],
                        #[trigger] pattern@[k],
                    ),
                forall|k: int|
                    0 <= k < transients@.len() ==> spec_transient_event(
                        em[pattern@.len() - na - nf - nc + k],
                        Pattern::Event(#[trigger] transients@[k]),
                    ),
            decreases transients@.len(),
        {
            let ghost oldp = pattern@;
            let ghost olds = transients@;
            let e = transients.remove(0);
            pattern.push(Pattern::Event(e));
            proof {
                assert(e == olds[0]);
                assert(forall|x: int| 0 <= x < oldp.len() ==> #[trigger] pattern@[x] == oldp[x]);
                assert(pattern@[oldp.len() as int] == Pattern::Event(e));
                assert(forall|x: int| 0 <= x < transients@.len() ==> #[trigger] transients@[x] == olds[x + 1]);
                assert forall|c: int| 0 <= c < na implies spec_amp_curve(
                    amps_v,
                    c,
                    pattern@[c],
                ) by {
                    assert(pattern@[c] == oldp[c]);
                }
                if clip.signals.continuous.envelopes.frequency is Some {
                    let fv = clip.signals.continuous.envelopes.frequency->Some_0@;
                    assert forall|c: int|
                        0 <= c < spec_curve_count(fv.len() as int) implies spec_sharp_curve(
                        fv,
                        c,
                        #[trigger] pattern@[na + c],
                    ) by {
                        assert(pattern@[na + c] == oldp[na + c]);
                    }
                }
                assert forall|k: int|
                    na + nf <= k < na + nf + nc implies spec_continuous_event(
                    gtotal,
                    k - na - nf,
                    pattern@[k],
                ) by {
                    assert(pattern@[k] == oldp[k]);
                }
                assert forall|k: int|
                    na + nf + nc <= k < pattern@.len() implies spec_transient_event(
                    em[k - na - nf - nc],
                    pattern@[k],
                ) by {
                    if k < oldp.len() {
                        assert(pattern@[k] == oldp[k]);
                    } else {
                        assert(spec_transient_event(
                            em[oldp.len() - na - nf - nc],
                            Pattern::Event(olds[0]),
                        ));
                        assert(pattern@[k] == Pattern::Event(e));
                    }
                }
            }
        }
        Ahap {
            version: SCALE,
            metadata: MetaData {
                project: clip.metadata.project,
                created: clip.metadata.author,
                description: clip.metadata.description,
            },
            pattern,
        }
    }

    /// Splits the pattern into a pattern of everything continuous (events
    /// and curves) and, when any transients exist, a pattern of just the
    /// transients, so that a host can play them on independent engines
    /// without the curves distorting the transients.
    pub fn into_continuous_and_transients_ahaps(self) -> (r: (Ahap, Option<Ahap>))
        ensures
            r.0.pattern@ == self.pattern@.filter(|p: Pattern| !spec_is_transient(p)),
            match r.1 {
                Some(t) => t.pattern@ == self.pattern@.filter(|p: Pattern| spec_is_transient(p))
                    && t.pattern@.len() > 0,
                None => self.pattern@.filter(|p: Pattern| spec_is_transient(p)).len() == 0,
            },
    {
        let mut continuous: Vec<Pattern> = Vec::new();
        let mut transients: Vec<Pattern> = Vec::new();
        let mut rest = self.pattern;
        let ghost orig = rest@;
        let ghost mut processed: Seq<Pattern> = Seq::empty();
        proof {
            reveal(Seq::filter);
            assert(processed.filter(|p: Pattern| !spec_is_transient(p)) =~= Seq::<
                Pattern,
            >::empty());
            assert(processed.filter(|p: Pattern| spec_is_transient(p)) =~= Seq::<
                Pattern,
            >::empty());
        }
        while rest.len() > 0
            invariant
                orig =~= processed + rest@,
                continuous@ == processed.filter(|p: Pattern| !spec_is_transient(p)),
                transients@ == processed.filter(|p: Pattern| spec_is_transient(p)),
            decreases rest@.len(),
        {
            let p = rest.remove(0);
            let ghost pv = p;
            let is_trans = match &p {
                Pattern::Event(Event::HapticTransient { .. }) => true,
                _ => false,
            };
            if is_trans {
                transients.push(p);
            } else {
                continuous.push(p);
            }
            proof {
                reveal(Seq::filter);
                let np = processed.push(pv);
                assert(np.drop_last() =~= processed);
                assert(np.last() == pv);
                processed = np;
                assert(orig =~= processed + rest@);
            }
        }
        proof {
            assert(orig =~= processed);
        }
        let has_transients = transients.len() > 0;
        let cont = Ahap {
            version: 0,
            metadata: MetaData {
                project: String::new(),
                created: String::new(),
                description: String::new(),
            },
            pattern: continuous,
        };
        if has_transients {
            (
                cont,
                Some(
                    Ahap {
                        version: 0,
                        metadata: MetaData {
                            project: String::new(),
                            created: String::new(),
                            description: String::new(),
                        },
                        pattern: transients,
                    },
                ),
            )
        } else {
            (cont, None)
        }
    }
}

/// Converts the latest model to two patterns: everything continuous, and
/// the transients on their own (when any exist).
pub fn convert_to_transient_and_continuous_ahaps(data: model::DataModel) -> (r: (Ahap, Option<
    Ahap,
>))
    requires
        model::clip_wf(data),
        data.signals.continuous.envelopes.amplitude@.len() < 100_000_000,
        match data.signals.continuous.envelopes.frequency {
            Some(f) => f@.len() < 100_000_000,
            None => true,
        },
{
    Ahap::from_data_model(data).into_continuous_and_transients_ahaps()
}

} // verus!
