//! The current clip data model: envelopes of amplitude and frequency
//! breakpoints, validation, and truncation.

use vstd::prelude::*;
use crate::fixed::{interpolate, spec_lerp, MAX_TIME, SCALE};
use crate::version::{DataModelVersion, Version};

verus! {

/// A transient accent attached to an amplitude breakpoint.
#[derive(Clone, Copy, Debug, PartialEq, Eq, Structural)]
pub struct Emphasis {
    pub amplitude: i64,
    pub frequency: i64,
}

/// One sample of the amplitude envelope.
#[derive(Clone, Copy, Debug, PartialEq)]
pub struct AmplitudeBreakpoint {
    /// Offset from the start of the clip, in time units.
    pub time: i64,
    /// Amplitude in `[0, SCALE]` units.
    pub amplitude: i64,
    pub emphasis: Option<Emphasis>,
}

/// One sample of the frequency envelope.
#[derive(Clone, Copy, Debug, PartialEq, Eq, Structural)]
pub struct FrequencyBreakpoint {
    pub time: i64,
    pub frequency: i64,
}

/// The two envelopes of a continuous signal. The frequency envelope is
/// optional.
#[derive(Clone, Debug, PartialEq)]
pub struct Envelopes {
    pub amplitude: Vec<AmplitudeBreakpoint>,
    pub frequency: Option<Vec<FrequencyBreakpoint>>,
}

/// A decomposed haptic signal over a period of time.
#[derive(Clone, Debug, PartialEq)]
pub struct SignalContinuous {
    pub envelopes: Envelopes,
}

/// The signals of a clip.
#[derive(Clone, Debug, PartialEq)]
pub struct Signals {
    pub continuous: SignalContinuous,
}

/// Optional descriptive fields carried along with a clip.
#[derive(Clone, Debug, PartialEq)]
pub struct MetaData {
    pub editor: String,
    pub author: String,
    pub source: String,
    pub project: String,
    pub tags: Vec<String>,
    pub description: String,
}

impl MetaData {
    /// Metadata with every field empty.
    pub fn empty() -> (m: MetaData)
        ensures
            m.editor@ == Seq::<char>::empty(),
            m.author@ == Seq::<char>::empty(),
            m.source@ == Seq::<char>::empty(),
            m.project@ == Seq::<char>::empty(),
            m.tags@ == Seq::<String>::empty(),
            m.description@ == Seq::<char>::empty(),
    {
        MetaData {
            editor: String::new(),
            author: String::new(),
            source: String::new(),
            project: String::new(),
            tags: Vec::new(),
            description: String::new(),
        }
    }
}

/// The current clip model.
#[derive(Clone, Debug, PartialEq)]
pub struct DataModel {
    pub version: Version,
    pub metadata: MetaData,
    pub signals: Signals,
}

impl DataModelVersion for DataModel {
    /// The latest revision of this model.
    fn current() -> (v: Version)
    {
        Version { major: 1, minor: 0, patch: 0 }
    }

    fn version(&self) -> (v: &Version)
    {
        &self.version
    }
}

/// The latest schema revision, 1.0.0.
pub open spec fn spec_current_version() -> Version {
    Version { major: 1, minor: 0, patch: 0 }
}

/// Returns the latest schema revision of the current model.
pub fn current_version() -> (v: Version)
    ensures
        v == spec_current_version(),
{
    Version { major: 1, minor: 0, patch: 0 }
}

//
// Validity
//

/// A single amplitude breakpoint is within bounds (the relation between the
/// emphasis amplitude and the envelope amplitude is a separate, stronger
/// condition: see `amp_bp_ok`).
pub open spec fn amp_bp_wf(b: AmplitudeBreakpoint) -> bool {
    &&& 0 <= b.time <= MAX_TIME
    &&& 0 <= b.amplitude <= SCALE
    &&& match b.emphasis {
        Some(e) => {
            &&& 0 <= e.amplitude <= SCALE
            &&& 0 <= e.frequency <= SCALE
        },
        None => true,
    }
}

/// The emphasis, when present, is at least as strong as the envelope.
pub open spec fn amp_bp_emphasis_dominates(b: AmplitudeBreakpoint) -> bool {
    match b.emphasis {
        Some(e) => e.amplitude >= b.amplitude,
        None => true,
    }
}

/// A single amplitude breakpoint is within bounds and its emphasis dominates
/// its envelope amplitude.
pub open spec fn amp_bp_ok(b: AmplitudeBreakpoint) -> bool {
    amp_bp_wf(b) && amp_bp_emphasis_dominates(b)
}

/// A single frequency breakpoint is within bounds.
pub open spec fn freq_bp_ok(b: FrequencyBreakpoint) -> bool {
    &&& 0 <= b.time <= crate::fixed::CLIP_TIME_LIMIT
    &&& 0 <= b.frequency <= SCALE
}

/// Times of the amplitude envelope never decrease.
pub open spec fn amp_times_monotone(s: Seq<AmplitudeBreakpoint>) -> bool {
    forall|i: int, j: int| 0 <= i <= j < s.len() ==> #[trigger] s[i].time <= #[trigger] s[j].time
}

/// Times of the frequency envelope never decrease.
pub open spec fn freq_times_monotone(s: Seq<FrequencyBreakpoint>) -> bool {
    forall|i: int, j: int| 0 <= i <= j < s.len() ==> #[trigger] s[i].time <= #[trigger] s[j].time
}

/// The amplitude envelope is non-empty, in bounds and time-ordered.
pub open spec fn amp_envelope_wf(s: Seq<AmplitudeBreakpoint>) -> bool {
    &&& s.len() > 0
    &&& forall|i: int| 0 <= i < s.len() ==> amp_bp_wf(#[trigger] s[i])
    &&& amp_times_monotone(s)
}

/// A well-formed amplitude envelope whose emphasis values also dominate the
/// envelope amplitudes, as the current validator demands.
pub open spec fn amp_envelope_valid(s: Seq<AmplitudeBreakpoint>) -> bool {
    &&& amp_envelope_wf(s)
    &&& forall|i: int| 0 <= i < s.len() ==> amp_bp_emphasis_dominates(#[trigger] s[i])
}

/// The frequency envelope is in bounds and time-ordered (it may be empty).
pub open spec fn freq_envelope_valid(s: Seq<FrequencyBreakpoint>) -> bool {
    &&& forall|i: int| 0 <= i < s.len() ==> freq_bp_ok(#[trigger] s[i])
    &&& freq_times_monotone(s)
}

/// What every operation on a loaded clip relies on: envelopes in bounds and
/// time-ordered. Kept by truncation and established by both loaders.
pub open spec fn clip_wf(c: DataModel) -> bool {
    &&& amp_envelope_wf(c.signals.continuous.envelopes.amplitude@)
    &&& match c.signals.continuous.envelopes.frequency {
        Some(f) => freq_envelope_valid(f@),
        None => true,
    }
}

/// The clip's duration: the time of its last amplitude breakpoint.
pub open spec fn clip_duration(c: DataModel) -> int {
    let amps = c.signals.continuous.envelopes.amplitude@;
    if amps.len() > 0 {
        amps[amps.len() - 1].time as int
    } else {
        0
    }
}

/// A clip the playback backends accept: well-formed, with enough headroom
/// after its last breakpoint for the regions that emphasis rendering appends.
pub open spec fn clip_playable(c: DataModel) -> bool {
    &&& clip_wf(c)
    &&& clip_duration(c) <= crate::fixed::CLIP_TIME_LIMIT
}

/// The invariant established by the current validator: playable, and every
/// emphasis dominates its envelope amplitude.
pub open spec fn clip_valid(c: DataModel) -> bool {
    &&& clip_playable(c)
    &&& forall|i: int|
        0 <= i < c.signals.continuous.envelopes.amplitude@.len()
            ==> amp_bp_emphasis_dominates(#[trigger] c.signals.continuous.envelopes.amplitude@[i])
}

/// Clips are the same apart from string and vector identity: versions equal,
/// envelopes equal element for element, metadata equal as text.
pub open spec fn clip_eq(a: DataModel, b: DataModel) -> bool {
    &&& a.version == b.version
    &&& a.signals.continuous.envelopes.amplitude@ == b.signals.continuous.envelopes.amplitude@
    &&& match (a.signals.continuous.envelopes.frequency, b.signals.continuous.envelopes.frequency) {
        (Some(fa), Some(fb)) => fa@ == fb@,
        (None, None) => true,
        _ => false,
    }
    &&& a.metadata.editor@ == b.metadata.editor@
    &&& a.metadata.author@ == b.metadata.author@
    &&& a.metadata.source@ == b.metadata.source@
    &&& a.metadata.project@ == b.metadata.project@
    &&& a.metadata.tags@.map_values(|s: String| s@) == b.metadata.tags@.map_values(|s: String| s@)
    &&& a.metadata.description@ == b.metadata.description@
}

//
// Locating the first breakpoint at or after a time
//

/// Index of the first amplitude breakpoint whose time is at or after `t`,
/// or `s.len()` when there is none.
pub open spec fn first_amp_at_or_after(s: Seq<AmplitudeBreakpoint>, t: int) -> int
    decreases s.len(),
{
    if s.len() == 0 {
        0
    } else if s[0].time >= t {
        0
    } else {
        1 + first_amp_at_or_after(s.subrange(1, s.len() as int), t)
    }
}

/// Index of the first frequency breakpoint whose time is at or after `t`,
/// or `s.len()` when there is none.
pub open spec fn first_freq_at_or_after(s: Seq<FrequencyBreakpoint>, t: int) -> int
    decreases s.len(),
{
    if s.len() == 0 {
        0
    } else if s[0].time >= t {
        0
    } else {
        1 + first_freq_at_or_after(s.subrange(1, s.len() as int), t)
    }
}

/// What `first_amp_at_or_after` returns: everything before it is earlier than
/// `t`, and the index itself (if in range) is at or after `t`.
pub proof fn lemma_first_amp_at_or_after(s: Seq<AmplitudeBreakpoint>, t: int)
    ensures
        0 <= first_amp_at_or_after(s, t) <= s.len(),
        forall|k: int| 0 <= k < first_amp_at_or_after(s, t) ==> #[trigger] s[k].time < t,
        first_amp_at_or_after(s, t) < s.len() ==> s[first_amp_at_or_after(s, t)].time >= t,
    decreases s.len(),
{
    if s.len() == 0 {
    } else if s[0].time >= t {
    } else {
        let sub = s.subrange(1, s.len() as int);
        lemma_first_amp_at_or_after(sub, t);
        let idx = first_amp_at_or_after(s, t);
        assert forall|k: int| 0 <= k < idx implies #[trigger] s[k].time < t by {
            if k > 0 {
                assert(sub[k - 1] == s[k]);
            }
        };
        if idx < s.len() {
            assert(sub[idx - 1] == s[idx]);
        }
    }
}

/// Same characterization for the frequency envelope.
pub proof fn lemma_first_freq_at_or_after(s: Seq<FrequencyBreakpoint>, t: int)
    ensures
        0 <= first_freq_at_or_after(s, t) <= s.len(),
        forall|k: int| 0 <= k < first_freq_at_or_after(s, t) ==> #[trigger] s[k].time < t,
        first_freq_at_or_after(s, t) < s.len() ==> s[first_freq_at_or_after(s, t)].time >= t,
    decreases s.len(),
{
    if s.len() == 0 {
    } else if s[0].time >= t {
    } else {
        let sub = s.subrange(1, s.len() as int);
        lemma_first_freq_at_or_after(sub, t);
        let idx = first_freq_at_or_after(s, t);
        assert forall|k: int| 0 <= k < idx implies #[trigger] s[k].time < t by {
            if k > 0 {
                assert(sub[k - 1] == s[k]);
            }
        };
        if idx < s.len() {
            assert(sub[idx - 1] == s[idx]);
        }
    }
}

/// Finds the index of the first amplitude breakpoint at or after `t`.
pub fn find_first_amp_at_or_after(v: &Vec<AmplitudeBreakpoint>, t: i64) -> (r: usize)
    ensures
        r == first_amp_at_or_after(v@, t as int),
{
    let mut i: usize = 0;
    while i < v.len()
        invariant
            i <= v.len(),
            forall|k: int| 0 <= k < i ==> #[trigger] v@[k].time < t,
        decreases v.len() - i,
    {
        if v[i].time >= t {
            proof {
                lemma_first_amp_at_or_after(v@, t as int);
                let idx = first_amp_at_or_after(v@, t as int);
                if idx < i {
                    assert(v@[idx].time < t);
                }
            }
            return i;
        }
        i += 1;
    }
    proof {
        lemma_first_amp_at_or_after(v@, t as int);
        let idx = first_amp_at_or_after(v@, t as int);
        if idx < v@.len() {
            assert(v@[idx].time < t);
        }
    }
    i
}

/// Finds the index of the first frequency breakpoint at or after `t`.
pub fn find_first_freq_at_or_after(v: &Vec<FrequencyBreakpoint>, t: i64) -> (r: usize)
    ensures
        r == first_freq_at_or_after(v@, t as int),
{
    let mut i: usize = 0;
    while i < v.len()
        invariant
            i <= v.len(),
            forall|k: int| 0 <= k < i ==> #[trigger] v@[k].time < t,
        decreases v.len() - i,
    {
        if v[i].time >= t {
            proof {
                lemma_first_freq_at_or_after(v@, t as int);
                let idx = first_freq_at_or_after(v@, t as int);
                if idx < i {
                    assert(v@[idx].time < t);
                }
            }
            return i;
        }
        i += 1;
    }
    proof {
        lemma_first_freq_at_or_after(v@, t as int);
        let idx = first_freq_at_or_after(v@, t as int);
        if idx < v@.len() {
            assert(v@[idx].time < t);
        }
    }
    i
}

impl AmplitudeBreakpoint {
    /// A breakpoint between `breakpoint_a` and `breakpoint_b` whose amplitude
    /// is the linear interpolation of the two at `time`. Carries no emphasis.
    pub fn from_interpolated_breakpoints(
        breakpoint_a: &AmplitudeBreakpoint,
        breakpoint_b: &AmplitudeBreakpoint,
        time: i64,
    ) -> (r: AmplitudeBreakpoint)
        requires
            breakpoint_a.time <= time <= breakpoint_b.time,
            0 <= breakpoint_a.amplitude <= SCALE,
            0 <= breakpoint_b.amplitude <= SCALE,
            breakpoint_b.time - breakpoint_a.time <= 2 * MAX_TIME,
        ensures
            r.time == time,
            r.amplitude == spec_lerp(
                breakpoint_a.time as int,
                breakpoint_b.time as int,
                breakpoint_a.amplitude as int,
                breakpoint_b.amplitude as int,
                time as int,
            ),
            0 <= r.amplitude <= SCALE,
            r.emphasis is None,
    {
        AmplitudeBreakpoint {
            time,
            amplitude: interpolate(
                breakpoint_a.time,
                breakpoint_b.time,
                breakpoint_a.amplitude,
                breakpoint_b.amplitude,
                time,
            ),
            emphasis: None,
        }
    }
}

//
// Truncation
//

/// The breakpoint moved earlier by `t` time units.
pub open spec fn amp_shifted(b: AmplitudeBreakpoint, t: int) -> AmplitudeBreakpoint {
    AmplitudeBreakpoint { time: (b.time - t) as i64, amplitude: b.amplitude, emphasis: b.emphasis }
}

/// The breakpoint moved earlier by `t` time units.
pub open spec fn freq_shifted(b: FrequencyBreakpoint, t: int) -> FrequencyBreakpoint {
    FrequencyBreakpoint { time: (b.time - t) as i64, frequency: b.frequency }
}

/// The amplitude envelope after truncation at `t`: breakpoints before `t` are
/// dropped, the rest shift by `-t`, and when `t` falls strictly between two
/// breakpoints a new initial breakpoint at time 0 holds the interpolated
/// amplitude.
pub open spec fn spec_truncated_amp(s: Seq<AmplitudeBreakpoint>, t: int) -> Seq<AmplitudeBreakpoint>
    recommends
        first_amp_at_or_after(s, t) < s.len(),
{
    let idx = first_amp_at_or_after(s, t);
    let shifted = s.subrange(idx, s.len() as int).map(|k: int, b: AmplitudeBreakpoint| amp_shifted(b, t));
    if idx > 0 && s[idx].time > t {
        seq![
            AmplitudeBreakpoint {
                time: 0,
                amplitude: spec_lerp(
                    s[idx - 1].time as int,
                    s[idx].time as int,
                    s[idx - 1].amplitude as int,
                    s[idx].amplitude as int,
                    t,
                ) as i64,
                emphasis: None,
            },
        ] + shifted
    } else {
        shifted
    }
}

/// The frequency envelope after truncation at `t`, handled like the amplitude
/// envelope.
pub open spec fn spec_truncated_freq(
    s: Seq<FrequencyBreakpoint>,
    t: int,
) -> Seq<FrequencyBreakpoint>
    recommends
        first_freq_at_or_after(s, t) < s.len(),
{
    let idx = first_freq_at_or_after(s, t);
    let shifted = s.subrange(idx, s.len() as int).map(|k: int, b: FrequencyBreakpoint| freq_shifted(b, t));
    if idx > 0 && s[idx].time > t {
        seq![
            FrequencyBreakpoint {
                time: 0,
                frequency: spec_lerp(
                    s[idx - 1].time as int,
                    s[idx].time as int,
                    s[idx - 1].frequency as int,
                    s[idx].frequency as int,
                    t,
                ) as i64,
            },
        ] + shifted
    } else {
        shifted
    }
}

/// Truncating a valid amplitude envelope yields a valid amplitude envelope.
pub proof fn lemma_truncated_amp_valid(s: Seq<AmplitudeBreakpoint>, t: int)
    requires
        amp_envelope_wf(s),
        0 <= t <= MAX_TIME,
        first_amp_at_or_after(s, t) < s.len(),
    ensures
        amp_envelope_wf(spec_truncated_amp(s, t)),
{
    lemma_first_amp_at_or_after(s, t);
    let idx = first_amp_at_or_after(s, t);
    let res = spec_truncated_amp(s, t);
    let shifted = s.subrange(idx, s.len() as int).map(
        |k: int, b: AmplitudeBreakpoint| amp_shifted(b, t),
    );
    let ins: int = if idx > 0 && s[idx].time > t {
        1
    } else {
        0
    };
    assert(res.len() == ins + (s.len() - idx));
    assert forall|p: int| 0 <= p < res.len() implies amp_bp_wf(#[trigger] res[p]) by {
        if p < ins {
            assert(amp_bp_wf(s[idx - 1]));
            assert(amp_bp_wf(s[idx]));
            assert(s[idx - 1].time <= t);
            crate::fixed::lemma_lerp_bounds(
                s[idx - 1].time as int,
                s[idx].time as int,
                s[idx - 1].amplitude as int,
                s[idx].amplitude as int,
                t,
            );
        } else {
            let k = p - ins;
            assert(res[p] == shifted[k]);
            assert(shifted[k] == amp_shifted(s[idx + k], t));
            assert(amp_bp_wf(s[idx + k]));
            assert(s[idx].time <= s[idx + k].time);
        }
    };
    assert forall|p: int, q: int| 0 <= p <= q < res.len() implies #[trigger] res[p].time
        <= #[trigger] res[q].time by {
        if p >= ins {
            assert(res[p] == shifted[p - ins]);
            assert(res[q] == shifted[q - ins]);
            assert(s[idx + (p - ins)].time <= s[idx + (q - ins)].time);
        } else if q >= ins {
            assert(res[q] == shifted[q - ins]);
            assert(s[idx].time <= s[idx + (q - ins)].time);
        }
    };
}

/// Truncation never moves the last breakpoint later: the truncated envelope
/// ends at or before the original's end.
pub proof fn lemma_truncated_amp_last(s: Seq<AmplitudeBreakpoint>, t: int)
    requires
        amp_envelope_wf(s),
        0 <= t <= MAX_TIME,
        first_amp_at_or_after(s, t) < s.len(),
    ensures
        ({
            let r = spec_truncated_amp(s, t);
            &&& r.len() > 0
            &&& r[r.len() - 1].time <= s[s.len() - 1].time
        }),
{
    lemma_first_amp_at_or_after(s, t);
    let idx = first_amp_at_or_after(s, t);
    let r = spec_truncated_amp(s, t);
    let shifted = s.subrange(idx, s.len() as int).map(
        |k: int, b: AmplitudeBreakpoint| amp_shifted(b, t),
    );
    assert(shifted.len() > 0);
    assert(r[r.len() - 1] == shifted[shifted.len() - 1]);
    assert(shifted[shifted.len() - 1] == amp_shifted(s[s.len() - 1], t));
}

/// Truncating a valid frequency envelope yields a valid frequency envelope.
pub proof fn lemma_truncated_freq_valid(s: Seq<FrequencyBreakpoint>, t: int)
    requires
        freq_envelope_valid(s),
        0 <= t <= MAX_TIME,
        first_freq_at_or_after(s, t) < s.len(),
    ensures
        freq_envelope_valid(spec_truncated_freq(s, t)),
{
    lemma_first_freq_at_or_after(s, t);
    let idx = first_freq_at_or_after(s, t);
    let res = spec_truncated_freq(s, t);
    let shifted = s.subrange(idx, s.len() as int).map(
        |k: int, b: FrequencyBreakpoint| freq_shifted(b, t),
    );
    let ins: int = if idx > 0 && s[idx].time > t {
        1
    } else {
        0
    };
    assert(res.len() == ins + (s.len() - idx));
    assert forall|p: int| 0 <= p < res.len() implies freq_bp_ok(#[trigger] res[p]) by {
        if p < ins {
            assert(freq_bp_ok(s[idx - 1]));
            assert(freq_bp_ok(s[idx]));
            assert(s[idx - 1].time <= t);
            crate::fixed::lemma_lerp_bounds(
                s[idx - 1].time as int,
                s[idx].time as int,
                s[idx - 1].frequency as int,
                s[idx].frequency as int,
                t,
            );
        } else {
            let k = p - ins;
            assert(res[p] == shifted[k]);
            assert(shifted[k] == freq_shifted(s[idx + k], t));
            assert(freq_bp_ok(s[idx + k]));
            assert(s[idx].time <= s[idx + k].time);
        }
    };
    assert forall|p: int, q: int| 0 <= p <= q < res.len() implies #[trigger] res[p].time
        <= #[trigger] res[q].time by {
        if p >= ins {
            assert(res[p] == shifted[p - ins]);
            assert(res[q] == shifted[q - ins]);
            assert(s[idx + (p - ins)].time <= s[idx + (q - ins)].time);
        } else if q >= ins {
            assert(res[q] == shifted[q - ins]);
            assert(s[idx].time <= s[idx + (q - ins)].time);
        }
    };
}

/// Data model validation: a model is checked once after loading and is
/// immutable from then on.
pub trait Validation where Self: core::marker::Sized {
    fn validate(self) -> Result<Self, String>;
}

impl Validation for DataModel {
    fn validate(self) -> Result<DataModel, String> {
        self.validated()
    }
}

impl DataModel {
    /// Checks the model invariants: non-empty amplitude envelope, all values
    /// in range, times non-decreasing, and emphasis amplitude at least the
    /// envelope amplitude. Returns the model unchanged exactly when they all
    /// hold.
    pub fn validated(self) -> (r: Result<DataModel, String>)
        ensures
            r is Ok <==> clip_valid(self),
            r matches Ok(c) ==> c == self,
    {
        let amps = &self.signals.continuous.envelopes.amplitude;
        if amps.len() == 0 {
            return Err("V1 Validation Error: Amplitude envelope is empty".to_string());
        }
        let mut last_time: i64 = 0;
        let mut i: usize = 0;
        while i < amps.len()
            invariant
                amps@ == self.signals.continuous.envelopes.amplitude@,
                i <= amps.len(),
                forall|k: int| 0 <= k < i ==> amp_bp_ok(#[trigger] amps@[k]),
                forall|k: int| 0 <= k < i ==> (#[trigger] amps@[k]).time
                    <= crate::fixed::CLIP_TIME_LIMIT,
                forall|p: int, q: int|
                    0 <= p <= q < i ==> #[trigger] amps@[p].time <= #[trigger] amps@[q].time,
                i > 0 ==> last_time == amps@[i - 1].time,
                i == 0 ==> last_time == 0,
                0 <= last_time,
            decreases amps.len() - i,
        {
            let b = amps[i];
            if b.amplitude < 0 || b.amplitude > SCALE {
                proof {
                    assert(!amp_bp_ok(amps@[i as int]));
                }
                return Err("V1 Validation Error: Breakpoint amplitude out of range".to_string());
            }
            if last_time > b.time {
                proof {
                    if i == 0 {
                        assert(!amp_bp_ok(amps@[0]));
                    } else {
                        assert(!(amps@[i - 1].time <= amps@[i as int].time));
                        assert(!amp_times_monotone(amps@));
                    }
                }
                return Err("V1 Validation Error: Breakpoint times not consecutive".to_string());
            }
            if b.time > crate::fixed::CLIP_TIME_LIMIT {
                proof {
                    if amp_times_monotone(amps@) {
                        assert(amps@[i as int].time <= amps@[amps@.len() - 1].time);
                    }
                }
                return Err("V1 Validation Error: Breakpoint time out of range".to_string());
            }
            match b.emphasis {
                None => {},
                Some(e) => {
                    if e.amplitude < 0 || e.amplitude > SCALE {
                        proof {
                            assert(!amp_bp_ok(amps@[i as int]));
                        }
                        return Err(
                            "V1 Validation Error: Emphasis amplitude out of range".to_string(),
                        );
                    }
                    if e.frequency < 0 || e.frequency > SCALE {
                        proof {
                            assert(!amp_bp_ok(amps@[i as int]));
                        }
                        return Err(
                            "V1 Validation Error: Emphasis frequency out of range".to_string(),
                        );
                    }
                    if e.amplitude < b.amplitude {
                        proof {
                            assert(!amp_bp_ok(amps@[i as int]));
                        }
                        return Err(
                            "V1 Validation: Emphasis amplitude can't be lower than Envelope amplitude".to_string(),
                        );
                    }
                },
            }
            proof {
                assert(amp_bp_ok(amps@[i as int]));
            }
            last_time = b.time;
            i += 1;
        }
        proof {
            assert(amp_envelope_valid(amps@));
            assert(amp_bp_wf(amps@[amps@.len() - 1]));
        }
        match &self.signals.continuous.envelopes.frequency {
            None => {},
            Some(freqs) => {
                let mut last_time: i64 = 0;
                let mut i: usize = 0;
                while i < freqs.len()
                    invariant
                        match self.signals.continuous.envelopes.frequency {
                            Some(f) => f@ == freqs@,
                            None => false,
                        },
                        i <= freqs.len(),
                        forall|k: int| 0 <= k < i ==> freq_bp_ok(#[trigger] freqs@[k]),
                        forall|p: int, q: int|
                            0 <= p <= q < i ==> #[trigger] freqs@[p].time
                                <= #[trigger] freqs@[q].time,
                        i > 0 ==> last_time == freqs@[i - 1].time,
                        i == 0 ==> last_time == 0,
                        0 <= last_time,
                    decreases freqs.len() - i,
                {
                    let b = freqs[i];
                    if b.frequency < 0 || b.frequency > SCALE {
                        proof {
                            assert(!freq_bp_ok(freqs@[i as int]));
                        }
                        return Err(
                            "V1 Validation Error: Breakpoint frequency out of range".to_string(),
                        );
                    }
                    if last_time > b.time {
                        proof {
                            if i == 0 {
                                assert(!freq_bp_ok(freqs@[0]));
                            } else {
                                assert(!(freqs@[i - 1].time <= freqs@[i as int].time));
                                assert(!freq_times_monotone(freqs@));
                            }
                        }
                        return Err(
                            "V1 Validation Error: Breakpoint frequency times not consecutive".to_string(),
                        );
                    }
                    if b.time > crate::fixed::CLIP_TIME_LIMIT {
                        proof {
                            assert(!freq_bp_ok(freqs@[i as int]));
                        }
                        return Err(
                            "V1 Validation Error: Breakpoint frequency time out of range".to_string(),
                        );
                    }
                    last_time = b.time;
                    i += 1;
                }
                proof {
                    assert(freq_envelope_valid(freqs@));
                }
            },
        }
        Ok(self)
    }

    /// Removes all breakpoints before `time` and shifts the rest so that the
    /// clip starts again at time 0. When `time` falls strictly between two
    /// breakpoints, a new initial breakpoint holds the interpolated value.
    /// Fails when no amplitude breakpoint lies at or after `time`; a frequency
    /// envelope with no breakpoint at or after `time` is dropped.
    pub fn truncate_before(&mut self, time: i64) -> (r: Result<(), String>)
        requires
            clip_wf(*old(self)),
            0 <= time <= MAX_TIME,
        ensures
            ({
                let amps = old(self).signals.continuous.envelopes.amplitude@;
                &&& (r is Ok <==> first_amp_at_or_after(amps, time as int) < amps.len())
                &&& (r is Err ==> *final(self) == *old(self))
                &&& (r is Ok ==> {
                    &&& final(self).signals.continuous.envelopes.amplitude@ == spec_truncated_amp(
                        amps,
                        time as int,
                    )
                    &&& match old(self).signals.continuous.envelopes.frequency {
                        None => final(self).signals.continuous.envelopes.frequency is None,
                        Some(f) => if first_freq_at_or_after(f@, time as int) < f@.len() {
                            match final(self).signals.continuous.envelopes.frequency {
                                Some(nf) => nf@ == spec_truncated_freq(f@, time as int),
                                None => false,
                            }
                        } else {
                            final(self).signals.continuous.envelopes.frequency is None
                        },
                    }
                    &&& final(self).version == old(self).version
                    &&& final(self).metadata == old(self).metadata
                    &&& clip_wf(*final(self))
                })
            }),
    {
        let ghost amps = self.signals.continuous.envelopes.amplitude@;
        let len = self.signals.continuous.envelopes.amplitude.len();
        let idx = find_first_amp_at_or_after(&self.signals.continuous.envelopes.amplitude, time);
        if idx == len {
            return Err("No amplitude breakpoint before the specified starting time".to_string());
        }
        proof {
            lemma_first_amp_at_or_after(amps, time as int);
            lemma_truncated_amp_valid(amps, time as int);
        }
        let mut new_amps: Vec<AmplitudeBreakpoint> = Vec::new();
        if idx > 0 {
            let before = self.signals.continuous.envelopes.amplitude[idx - 1];
            let after = self.signals.continuous.envelopes.amplitude[idx];
            proof {
                assert(amp_bp_wf(amps[idx - 1]));
                assert(amp_bp_wf(amps[idx as int]));
                assert(amps[idx - 1].time < time);
            }
            if after.time > time {
                let nb = AmplitudeBreakpoint::from_interpolated_breakpoints(&before, &after, time);
                new_amps.push(AmplitudeBreakpoint { time: 0, amplitude: nb.amplitude, emphasis: None });
            }
        }
        let ghost pre = new_amps@;
        proof {
            if idx > 0 && amps[idx as int].time > time {
                assert(pre =~= spec_truncated_amp(amps, time as int).take(1));
            } else {
                assert(pre.len() == 0);
            }
        }
        let mut j: usize = idx;
        while j < len
            invariant
                *self == *old(self),
                amps == self.signals.continuous.envelopes.amplitude@,
                clip_wf(*old(self)),
                0 <= time <= MAX_TIME,
                len == amps.len(),
                idx == first_amp_at_or_after(amps, time as int),
                idx <= j <= len,
                idx < len,
                new_amps@.len() == pre.len() + (j - idx),
                forall|p: int| 0 <= p < pre.len() ==> #[trigger] new_amps@[p] == pre[p],
                forall|k: int|
                    0 <= k < j - idx ==> #[trigger] new_amps@[pre.len() + k] == amp_shifted(
                        amps[idx + k],
                        time as int,
                    ),
            decreases len - j,
        {
            let b = self.signals.continuous.envelopes.amplitude[j];
            proof {
                lemma_first_amp_at_or_after(amps, time as int);
                assert(amp_bp_wf(amps[j as int]));
                assert(amps[idx as int].time <= amps[j as int].time);
            }
            new_amps.push(AmplitudeBreakpoint {
                time: b.time - time,
                amplitude: b.amplitude,
                emphasis: b.emphasis,
            });
            j += 1;
        }
        proof {
            let res = spec_truncated_amp(amps, time as int);
            let shifted = amps.subrange(idx as int, amps.len() as int).map(
                |k: int, b: AmplitudeBreakpoint| amp_shifted(b, time as int),
            );
            assert(res.len() == pre.len() + (len - idx));
            assert forall|p: int| 0 <= p < res.len() implies new_amps@[p] == res[p] by {
                if p < pre.len() {
                    assert(res[p] == res.take(1)[p]);
                } else {
                    assert(new_amps@[pre.len() + (p - pre.len())] == amp_shifted(
                        amps[idx + (p - pre.len())],
                        time as int,
                    ));
                    assert(res[p] == shifted[p - pre.len()]);
                    assert(shifted[p - pre.len()] == amp_shifted(
                        amps[idx + (p - pre.len())],
                        time as int,
                    ));
                }
            };
            assert(new_amps@ =~= res);
        }
        self.signals.continuous.envelopes.amplitude = new_amps;
        let new_freq: Option<Vec<FrequencyBreakpoint>> = match &self
            .signals
            .continuous
            .envelopes
            .frequency {
            None => None,
            Some(freqs) => {
                let ghost fsq = freqs@;
                let flen = freqs.len();
                let fidx = find_first_freq_at_or_after(freqs, time);
                if fidx == flen {
                    None
                } else {
                    proof {
                        lemma_first_freq_at_or_after(fsq, time as int);
                        lemma_truncated_freq_valid(fsq, time as int);
                    }
                    let mut nf: Vec<FrequencyBreakpoint> = Vec::new();
                    if fidx > 0 {
                        let before = freqs[fidx - 1];
                        let after = freqs[fidx];
                        proof {
                            assert(freq_bp_ok(fsq[fidx - 1]));
                            assert(freq_bp_ok(fsq[fidx as int]));
                            assert(fsq[fidx - 1].time < time);
                        }
                        if after.time > time {
                            let nb = FrequencyBreakpoint::from_interpolated_breakpoints(
                                &before,
                                &after,
                                time,
                            );
                            nf.push(FrequencyBreakpoint { time: 0, frequency: nb.frequency });
                        }
                    }
                    let ghost fpre = nf@;
                    proof {
                        if fidx > 0 && fsq[fidx as int].time > time {
                            assert(fpre =~= spec_truncated_freq(fsq, time as int).take(1));
                        } else {
                            assert(fpre.len() == 0);
                        }
                    }
                    let mut j: usize = fidx;
                    while j < flen
                        invariant
                            match old(self).signals.continuous.envelopes.frequency {
                                Some(f) => f@ == fsq,
                                None => false,
                            },
                            freqs@ == fsq,
                            freq_envelope_valid(fsq),
                            0 <= time <= MAX_TIME,
                            flen == fsq.len(),
                            fidx == first_freq_at_or_after(fsq, time as int),
                            fidx <= j <= flen,
                            fidx < flen,
                            nf@.len() == fpre.len() + (j - fidx),
                            forall|p: int| 0 <= p < fpre.len() ==> #[trigger] nf@[p] == fpre[p],
                            forall|k: int|
                                0 <= k < j - fidx ==> #[trigger] nf@[fpre.len() + k]
                                    == freq_shifted(fsq[fidx + k], time as int),
                        decreases flen - j,
                    {
                        let b = freqs[j];
                        proof {
                            lemma_first_freq_at_or_after(fsq, time as int);
                            assert(freq_bp_ok(fsq[j as int]));
                            assert(fsq[fidx as int].time <= fsq[j as int].time);
                        }
                        nf.push(FrequencyBreakpoint { time: b.time - time, frequency: b.frequency });
                        j += 1;
                    }
                    proof {
                        let res = spec_truncated_freq(fsq, time as int);
                        let shifted = fsq.subrange(fidx as int, fsq.len() as int).map(
                            |k: int, b: FrequencyBreakpoint| freq_shifted(b, time as int),
                        );
                        assert(res.len() == fpre.len() + (flen - fidx));
                        assert forall|p: int| 0 <= p < res.len() implies nf@[p] == res[p] by {
                            if p < fpre.len() {
                                assert(res[p] == res.take(1)[p]);
                            } else {
                                assert(nf@[fpre.len() + (p - fpre.len())] == freq_shifted(
                                    fsq[fidx + (p - fpre.len())],
                                    time as int,
                                ));
                                assert(res[p] == shifted[p - fpre.len()]);
                                assert(shifted[p - fpre.len()] == freq_shifted(
                                    fsq[fidx + (p - fpre.len())],
                                    time as int,
                                ));
                            }
                        };
                        assert(nf@ =~= res);
                    }
                    Some(nf)
                }
            },
        };
        self.signals.continuous.envelopes.frequency = new_freq;
        Ok(())
    }

    /// A deep copy whose envelopes and metadata equal this model's.
    pub fn duplicate(&self) -> (c: DataModel)
        ensures
            clip_eq(c, *self),
            c.signals.continuous.envelopes.amplitude@
                == self.signals.continuous.envelopes.amplitude@,
            c.metadata.tags@ == self.metadata.tags@,
    {
        let mut amps: Vec<AmplitudeBreakpoint> = Vec::new();
        let mut i: usize = 0;
        let src_amps = &self.signals.continuous.envelopes.amplitude;
        while i < src_amps.len()
            invariant
                i <= src_amps.len(),
                amps@ == src_amps@.take(i as int),
            decreases src_amps.len() - i,
        {
            amps.push(src_amps[i]);
            proof {
                assert(amps@ =~= src_amps@.take(i as int + 1));
            }
            i += 1;
        }
        proof {
            assert(amps@ =~= src_amps@);
        }
        let freqs: Option<Vec<FrequencyBreakpoint>> = match &self
            .signals
            .continuous
            .envelopes
            .frequency {
            None => None,
            Some(src_freqs) => {
                let mut fs: Vec<FrequencyBreakpoint> = Vec::new();
                let mut j: usize = 0;
                while j < src_freqs.len()
                    invariant
                        j <= src_freqs.len(),
                        fs@ == src_freqs@.take(j as int),
                    decreases src_freqs.len() - j,
                {
                    fs.push(src_freqs[j]);
                    proof {
                        assert(fs@ =~= src_freqs@.take(j as int + 1));
                    }
                    j += 1;
                }
                proof {
                    assert(fs@ =~= src_freqs@);
                }
                Some(fs)
            },
        };
        let mut tags: Vec<String> = Vec::new();
        let mut k: usize = 0;
        while k < self.metadata.tags.len()
            invariant
                k <= self.metadata.tags.len(),
                tags@ == self.metadata.tags@.take(k as int),
            decreases self.metadata.tags.len() - k,
        {
            tags.push(self.metadata.tags[k].clone());
            proof {
                assert(tags@ =~= self.metadata.tags@.take(k as int + 1));
            }
            k += 1;
        }
        proof {
            assert(tags@ =~= self.metadata.tags@);
        }
        DataModel {
            version: self.version,
            metadata: MetaData {
                editor: self.metadata.editor.clone(),
                author: self.metadata.author.clone(),
                source: self.metadata.source.clone(),
                project: self.metadata.project.clone(),
                tags,
                description: self.metadata.description.clone(),
            },
            signals: Signals {
                continuous: SignalContinuous {
                    envelopes: Envelopes { amplitude: amps, frequency: freqs },
                },
            },
        }
    }
}

impl FrequencyBreakpoint {
    /// A breakpoint between `breakpoint_a` and `breakpoint_b` whose frequency
    /// is the linear interpolation of the two at `time`.
    pub fn from_interpolated_breakpoints(
        breakpoint_a: &FrequencyBreakpoint,
        breakpoint_b: &FrequencyBreakpoint,
        time: i64,
    ) -> (r: FrequencyBreakpoint)
        requires
            breakpoint_a.time <= time <= breakpoint_b.time,
            0 <= breakpoint_a.frequency <= SCALE,
            0 <= breakpoint_b.frequency <= SCALE,
            breakpoint_b.time - breakpoint_a.time <= 2 * MAX_TIME,
        ensures
            r.time == time,
            r.frequency == spec_lerp(
                breakpoint_a.time as int,
                breakpoint_b.time as int,
                breakpoint_a.frequency as int,
                breakpoint_b.frequency as int,
                time as int,
            ),
            0 <= r.frequency <= SCALE,
    {
        FrequencyBreakpoint {
            time,
            frequency: interpolate(
                breakpoint_a.time,
                breakpoint_b.time,
                breakpoint_a.frequency,
                breakpoint_b.frequency,
                time,
            ),
        }
    }
}

} // verus!
