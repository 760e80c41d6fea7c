//! The legacy clip data model: two parallel envelopes and a transient list,
//! with its validation and the upgrade to the current model.

use vstd::prelude::*;
use crate::fixed::{MAX_TIME, SCALE};
use crate::model;
use crate::model::{AmplitudeBreakpoint, Emphasis, Validation};
use crate::version::Version;

verus! {

/// A breakpoint of a legacy envelope or transient list. The `amplitude`
/// field carries the frequency value in the second envelope.
#[derive(Clone, Copy, Debug, PartialEq, Eq, Structural)]
pub struct Breakpoint {
    pub time: i64,
    pub amplitude: i64,
}

/// A legacy envelope: a time-ordered list of breakpoints.
pub type Envelope = Vec<Breakpoint>;

/// The envelopes and transients of a legacy clip.
#[derive(Clone, Debug, PartialEq)]
pub struct Voices {
    pub envelopes: Vec<Envelope>,
    pub transients: Vec<Envelope>,
}

/// Metadata of a legacy clip.
#[derive(Clone, Debug, PartialEq)]
pub struct MetaData {
    pub editor: String,
    pub duration: i64,
}

/// A legacy clip.
#[derive(Clone, Debug, PartialEq)]
pub struct DataModel {
    pub version: Version,
    pub metadata: MetaData,
    pub voices: Voices,
}

/// The legacy schema revision, 0.2.0.
pub open spec fn spec_v0_version() -> Version {
    Version { major: 0, minor: 2, patch: 0 }
}

/// One legacy envelope is in bounds, time-ordered, and ends at or before the
/// clip duration.
pub open spec fn envelope_wf(s: Seq<Breakpoint>, duration: int) -> bool {
    &&& forall|i: int| 0 <= i < s.len() ==> 0 <= #[trigger] s[i].amplitude <= SCALE
    &&& forall|i: int| 0 <= i < s.len() ==> 0 <= #[trigger] s[i].time <= MAX_TIME
    &&& forall|i: int, j: int| 0 <= i <= j < s.len() ==> #[trigger] s[i].time <= #[trigger] s[j].time
    &&& s.len() > 0 ==> s[s.len() - 1].time <= duration
}

/// The transient list is either absent or two envelopes of equal length whose
/// entries pair up by time and stay in range.
pub open spec fn transients_ok(ts: Seq<Envelope>) -> bool {
    ||| ts.len() == 0
    ||| {
        &&& ts.len() == 2
        &&& ts[0]@.len() == ts[1]@.len()
        &&& forall|i: int| 0 <= i < ts[0]@.len() ==> #[trigger] ts[0]@[i].time == ts[1]@[i].time
        &&& forall|i: int| 0 <= i < ts[0]@.len() ==> 0 <= #[trigger] ts[0]@[i].amplitude <= SCALE
        &&& forall|i: int| 0 <= i < ts[1]@.len() ==> 0 <= #[trigger] ts[1]@[i].amplitude <= SCALE
    }
}

/// What the legacy validator accepts.
pub open spec fn v0_valid(dm: DataModel) -> bool {
    &&& dm.voices.envelopes@.len() > 0
    &&& dm.voices.envelopes@[0]@.len() > 0
    &&& 0 <= dm.metadata.duration <= crate::fixed::CLIP_TIME_LIMIT
    &&& forall|e: int|
        0 <= e < dm.voices.envelopes@.len() ==> envelope_wf(
            #[trigger] dm.voices.envelopes@[e]@,
            dm.metadata.duration as int,
        )
    &&& transients_ok(dm.voices.transients@)
}

impl Validation for DataModel {
    fn validate(self) -> Result<DataModel, String> {
        self.validated()
    }
}

/// The amplitude envelope of the upgrade before transients are attached: the
/// first legacy envelope, closed with a final breakpoint at the clip duration
/// when the envelope ends earlier (or is empty).
pub open spec fn spec_extended_amp(s: Seq<Breakpoint>, duration: int) -> Seq<Breakpoint> {
    if s.len() == 0 {
        seq![Breakpoint { time: duration as i64, amplitude: 0 }]
    } else if duration > s[s.len() - 1].time {
        s.push(Breakpoint { time: duration as i64, amplitude: s[s.len() - 1].amplitude })
    } else {
        s
    }
}

/// Index of the first transient whose time equals `t`, or `s.len()` when
/// there is none.
pub open spec fn first_transient_at(s: Seq<Breakpoint>, t: int) -> int
    decreases s.len(),
{
    if s.len() == 0 {
        0
    } else if s[0].time == t {
        0
    } else {
        1 + first_transient_at(s.subrange(1, s.len() as int), t)
    }
}

/// What `first_transient_at` returns.
pub proof fn lemma_first_transient_at(s: Seq<Breakpoint>, t: int)
    ensures
        0 <= first_transient_at(s, t) <= s.len(),
        forall|k: int| 0 <= k < first_transient_at(s, t) ==> #[trigger] s[k].time != t,
        first_transient_at(s, t) < s.len() ==> s[first_transient_at(s, t)].time == t,
    decreases s.len(),
{
    if s.len() == 0 {
    } else if s[0].time == t {
    } else {
        let sub = s.subrange(1, s.len() as int);
        lemma_first_transient_at(sub, t);
        let idx = first_transient_at(s, t);
        assert forall|k: int| 0 <= k < idx implies #[trigger] s[k].time != t by {
            if k > 0 {
                assert(sub[k - 1] == s[k]);
            }
        };
        if idx < s.len() {
            assert(sub[idx - 1] == s[idx]);
        }
    }
}

/// The emphasis that a breakpoint at time `t` receives from the transient
/// pair lists: the values of the first pair at exactly that time, if any.
pub open spec fn spec_emphasis_at(ts0: Seq<Breakpoint>, ts1: Seq<Breakpoint>, t: int) -> Option<
    Emphasis,
> {
    let j = first_transient_at(ts0, t);
    if j < ts0.len() && j < ts1.len() {
        Some(Emphasis { amplitude: ts0[j].amplitude, frequency: ts1[j].amplitude })
    } else {
        None
    }
}

/// Finds the index of the first transient whose time equals `t`.
fn find_first_transient_at(v: &Vec<Breakpoint>, t: i64) -> (r: usize)
    ensures
        r == first_transient_at(v@, t as int),
{
    let mut i: usize = 0;
    while i < v.len()
        invariant
            i <= v.len(),
            forall|k: int| 0 <= k < i ==> #[trigger] v@[k].time != t,
        decreases v.len() - i,
    {
        if v[i].time == t {
            proof {
                lemma_first_transient_at(v@, t as int);
                let idx = first_transient_at(v@, t as int);
                if idx < i {
                    assert(v@[idx].time != t);
                }
            }
            return i;
        }
        i += 1;
    }
    proof {
        lemma_first_transient_at(v@, t as int);
        let idx = first_transient_at(v@, t as int);
        if idx < v@.len() {
            assert(v@[idx].time != t);
        }
    }
    i
}

/// The preconditions under which a legacy clip can be upgraded: the envelopes
/// that the upgrade reads are within bounds. Every clip that the legacy
/// validator accepts qualifies.
pub open spec fn v0_upgradable(dm: DataModel) -> bool {
    &&& dm.voices.envelopes@.len() >= 1
    &&& envelope_wf(dm.voices.envelopes@[0]@, dm.metadata.duration as int)
    &&& dm.voices.envelopes@.len() == 2 ==> envelope_wf(
        dm.voices.envelopes@[1]@,
        dm.metadata.duration as int,
    )
    &&& 0 <= dm.metadata.duration <= crate::fixed::CLIP_TIME_LIMIT
    &&& (dm.voices.transients@.len() == 2 && dm.voices.transients@[0]@.len()
        == dm.voices.transients@[1]@.len()) ==> {
        &&& forall|i: int|
            0 <= i < dm.voices.transients@[0]@.len() ==> 0 <= #[trigger] dm.voices.transients@[0]@[i].amplitude <= SCALE
        &&& forall|i: int|
            0 <= i < dm.voices.transients@[1]@.len() ==> 0 <= #[trigger] dm.voices.transients@[1]@[i].amplitude <= SCALE
    }
}

/// Validity gives upgradability.
pub proof fn lemma_valid_upgradable(dm: DataModel)
    requires
        v0_valid(dm),
    ensures
        v0_upgradable(dm),
{
}

/// The relation between a legacy clip `dm` and the current-model clip it
/// upgrades to: the amplitude envelope is the first legacy envelope extended
/// to the clip duration, with transients attached as emphasis where their
/// times match exactly; the frequency envelope is the second legacy envelope,
/// kept only when it is present and non-empty; the version becomes the
/// current one; of the metadata only the editor survives; and the result is
/// well-formed and playable.
pub open spec fn upgrade_shape(dm: DataModel, r: model::DataModel) -> bool {
    let ext = spec_extended_amp(dm.voices.envelopes@[0]@, dm.metadata.duration as int);
    let ts = dm.voices.transients@;
    let attach = ts.len() == 2 && ts[0]@.len() == ts[1]@.len();
    let amps = r.signals.continuous.envelopes.amplitude@;
    &&& amps.len() == ext.len()
    &&& forall|i: int|
        0 <= i < ext.len() ==> {
            &&& (#[trigger] amps[i]).time == ext[i].time
            &&& amps[i].amplitude == ext[i].amplitude
            &&& amps[i].emphasis == (if attach {
                spec_emphasis_at(ts[0]@, ts[1]@, ext[i].time as int)
            } else {
                None::<Emphasis>
            })
        }
    &&& match r.signals.continuous.envelopes.frequency {
        Some(f) => {
            &&& dm.voices.envelopes@.len() == 2
            &&& f@.len() == dm.voices.envelopes@[1]@.len()
            &&& f@.len() > 0
            &&& forall|i: int|
                0 <= i < f@.len() ==> {
                    &&& (#[trigger] f@[i]).time == dm.voices.envelopes@[1]@[i].time
                    &&& f@[i].frequency == dm.voices.envelopes@[1]@[i].amplitude
                }
        },
        None => dm.voices.envelopes@.len() != 2 || dm.voices.envelopes@[1]@.len() == 0,
    }
    &&& r.version == model::spec_current_version()
    &&& r.metadata.editor@ == dm.metadata.editor@
    &&& r.metadata.author@.len() == 0
    &&& r.metadata.source@.len() == 0
    &&& r.metadata.project@.len() == 0
    &&& r.metadata.tags@.len() == 0
    &&& r.metadata.description@.len() == 0
    &&& model::clip_wf(r)
    &&& model::clip_duration(r) <= dm.metadata.duration
    &&& model::clip_playable(r)
}

impl DataModel {
    /// Upgrades the legacy clip to the current model: the first envelope
    /// becomes the amplitude envelope (closed at the clip duration), the
    /// second becomes the frequency envelope, and transients whose time
    /// matches an amplitude breakpoint exactly become its emphasis.
    /// Unmatched transients are dropped.
    pub fn upgrade(self) -> (r: model::DataModel)
        requires
            v0_upgradable(self),
        ensures
            upgrade_shape(self, r),
    {
        let ghost ext = spec_extended_amp(self.voices.envelopes@[0]@, self.metadata.duration as int);
        let dur = self.metadata.duration;
        let env0 = &self.voices.envelopes[0];
        let mut amps: Vec<AmplitudeBreakpoint> = Vec::new();
        let mut i: usize = 0;
        while i < env0.len()
            invariant
                env0@ == self.voices.envelopes@[0]@,
                self.voices.envelopes@.len() >= 1,
                i <= env0@.len(),
                amps@.len() == i,
                forall|k: int|
                    0 <= k < i ==> {
                        &&& (#[trigger] amps@[k]).time == env0@[k].time
                        &&& amps@[k].amplitude == env0@[k].amplitude
                        &&& amps@[k].emphasis is None
                    },
            decreases env0@.len() - i,
        {
            let b = env0[i];
            amps.push(AmplitudeBreakpoint { time: b.time, amplitude: b.amplitude, emphasis: None });
            i += 1;
        }
        if env0.len() == 0 {
            amps.push(AmplitudeBreakpoint { time: dur, amplitude: 0, emphasis: None });
        } else {
            let last = env0[env0.len() - 1];
            if dur > last.time {
                amps.push(AmplitudeBreakpoint {
                    time: dur,
                    amplitude: last.amplitude,
                    emphasis: None,
                });
            }
        }
        proof {
            assert(amps@.len() == ext.len());
            assert forall|k: int| 0 <= k < ext.len() implies (#[trigger] amps@[k]).time
                == ext[k].time && amps@[k].amplitude == ext[k].amplitude && amps@[k].emphasis
                is None by {
                if env0@.len() != 0 && k < env0@.len() {
                    assert(ext[k] == env0@[k]);
                }
            };
        }
        let attach = self.voices.transients.len() == 2 && self.voices.transients[0].len()
            == self.voices.transients[1].len();
        if attach {
            let ts0 = &self.voices.transients[0];
            let ts1 = &self.voices.transients[1];
            let mut k: usize = 0;
            while k < amps.len()
                invariant
                    ts0@ == self.voices.transients@[0]@,
                    ts1@ == self.voices.transients@[1]@,
                    self.voices.transients@.len() == 2,
                    ts0@.len() == ts1@.len(),
                    k <= amps@.len(),
                    amps@.len() == ext.len(),
                    forall|p: int|
                        0 <= p < ext.len() ==> (#[trigger] amps@[p]).time == ext[p].time
                            && amps@[p].amplitude == ext[p].amplitude,
                    forall|p: int|
                        k <= p < ext.len() ==> (#[trigger] amps@[p]).emphasis is None,
                    forall|p: int|
                        0 <= p < k ==> (#[trigger] amps@[p]).emphasis == spec_emphasis_at(
                            ts0@,
                            ts1@,
                            ext[p].time as int,
                        ),
                decreases amps@.len() - k,
            {
                let t = amps[k].time;
                let j = find_first_transient_at(ts0, t);
                proof {
                    lemma_first_transient_at(ts0@, t as int);
                }
                if j < ts0.len() {
                    let e = Emphasis { amplitude: ts0[j].amplitude, frequency: ts1[j].amplitude };
                    let old_bp = amps[k];
                    amps.set(
                        k,
                        AmplitudeBreakpoint {
                            time: old_bp.time,
                            amplitude: old_bp.amplitude,
                            emphasis: Some(e),
                        },
                    );
                }
                k += 1;
            }
        }
        let freq: Option<Vec<model::FrequencyBreakpoint>> = if self.voices.envelopes.len() == 2 {
            let env1 = &self.voices.envelopes[1];
            if env1.len() == 0 {
                None
            } else {
                let mut fs: Vec<model::FrequencyBreakpoint> = Vec::new();
                let mut i: usize = 0;
                while i < env1.len()
                    invariant
                        self.voices.envelopes@.len() == 2,
                        env1@ == self.voices.envelopes@[1]@,
                        i <= env1@.len(),
                        fs@.len() == i,
                        forall|p: int|
                            0 <= p < i ==> {
                                &&& (#[trigger] fs@[p]).time == env1@[p].time
                                &&& fs@[p].frequency == env1@[p].amplitude
                            },
                    decreases env1@.len() - i,
                {
                    let b = env1[i];
                    fs.push(model::FrequencyBreakpoint { time: b.time, frequency: b.amplitude });
                    i += 1;
                }
                Some(fs)
            }
        } else {
            None
        };
        let result = model::DataModel {
            version: crate::model::current_version(),
            metadata: model::MetaData {
                editor: self.metadata.editor,
                author: String::new(),
                source: String::new(),
                project: String::new(),
                tags: Vec::new(),
                description: String::new(),
            },
            signals: model::Signals {
                continuous: model::SignalContinuous {
                    envelopes: model::Envelopes { amplitude: amps, frequency: freq },
                },
            },
        };
        proof {
            let amps_v = result.signals.continuous.envelopes.amplitude@;
            assert forall|p: int| 0 <= p < amps_v.len() implies model::amp_bp_wf(
                #[trigger] amps_v[p],
            ) by {
                if env0@.len() != 0 && p < env0@.len() {
                    assert(ext[p] == env0@[p]);
                }
                if self.voices.transients@.len() == 2 && self.voices.transients@[0]@.len()
                    == self.voices.transients@[1]@.len() {
                    lemma_first_transient_at(
                        self.voices.transients@[0]@,
                        ext[p].time as int,
                    );
                }
            };
            assert forall|p: int, q: int| 0 <= p <= q < amps_v.len() implies #[trigger] amps_v[p].time
                <= #[trigger] amps_v[q].time by {
                if env0@.len() != 0 {
                    if p < env0@.len() {
                        assert(ext[p] == env0@[p]);
                    }
                    if q < env0@.len() {
                        assert(ext[q] == env0@[q]);
                    }
                    if q >= env0@.len() {
                        assert(ext[q].time == self.metadata.duration);
                        assert(env0@[env0@.len() - 1].time <= self.metadata.duration);
                        if p < env0@.len() {
                            assert(env0@[p].time <= env0@[env0@.len() - 1].time);
                        }
                    }
                }
            };
            let ghost fopt = result.signals.continuous.envelopes.frequency;
            match fopt {
                Some(f) => {
                    assert forall|p: int| 0 <= p < f@.len() implies model::freq_bp_ok(
                        #[trigger] f@[p],
                    ) by {
                        assert(0 <= self.voices.envelopes@[1]@[p].amplitude <= SCALE);
                        assert(0 <= self.voices.envelopes@[1]@[p].time <= MAX_TIME);
                    };
                    assert forall|p: int, q: int|
                        0 <= p <= q < f@.len() implies #[trigger] f@[p].time <= #[trigger] f@[q].time by {
                        assert(self.voices.envelopes@[1]@[p].time
                            <= self.voices.envelopes@[1]@[q].time);
                    };
                },
                None => {},
            }
        }
        result
    }
}

impl DataModel {
    /// Checks the legacy model: a non-empty amplitude envelope, values in
    /// range, times non-decreasing and within the stated duration, and
    /// transients in matching pairs. Returns the model unchanged exactly when
    /// all of them hold.
    pub fn validated(self) -> (r: Result<DataModel, String>)
        ensures
            r is Ok <==> v0_valid(self),
            r matches Ok(c) ==> c == self,
    {
        if self.voices.envelopes.len() == 0 {
            return Err("V0 Validation Error: Envelopes are empty".to_string());
        }
        if self.voices.envelopes[0].len() == 0 {
            return Err("V0 Validation Error: Amplitude envelope is empty".to_string());
        }
        if self.metadata.duration < 0 || self.metadata.duration > crate::fixed::CLIP_TIME_LIMIT {
            return Err("V0 Validation Error: Duration out of range".to_string());
        }
        let envs = &self.voices.envelopes;
        let mut e: usize = 0;
        while e < envs.len()
            invariant
                envs@ == self.voices.envelopes@,
                0 <= self.metadata.duration <= crate::fixed::CLIP_TIME_LIMIT,
                e <= envs@.len(),
                forall|k: int|
                    0 <= k < e ==> envelope_wf(
                        #[trigger] envs@[k]@,
                        self.metadata.duration as int,
                    ),
            decreases envs@.len() - e,
        {
            let env = &envs[e];
            let mut last_time: i64 = 0;
            let mut i: usize = 0;
            while i < env.len()
                invariant
                    envs@ == self.voices.envelopes@,
                    0 <= self.metadata.duration <= crate::fixed::CLIP_TIME_LIMIT,
                    e < envs@.len(),
                    env@ == envs@[e as int]@,
                    i <= env@.len(),
                    forall|k: int| 0 <= k < i ==> 0 <= #[trigger] env@[k].amplitude <= SCALE,
                    forall|k: int| 0 <= k < i ==> 0 <= #[trigger] env@[k].time <= MAX_TIME,
                    forall|p: int, q: int|
                        0 <= p <= q < i ==> #[trigger] env@[p].time <= #[trigger] env@[q].time,
                    i > 0 ==> last_time == env@[i - 1].time,
                    i == 0 ==> last_time == 0,
                    0 <= last_time,
                decreases env@.len() - i,
            {
                let b = env[i];
                if b.amplitude < 0 || b.amplitude > SCALE {
                    proof {
                        assert(!envelope_wf(envs@[e as int]@, self.metadata.duration as int));
                    }
                    return Err("V0 Validation Error: Breakpoint amplitude out of range".to_string());
                }
                if last_time > b.time {
                    proof {
                        if i > 0 {
                            assert(!(env@[i - 1].time <= env@[i as int].time));
                        }
                        assert(!envelope_wf(envs@[e as int]@, self.metadata.duration as int));
                    }
                    return Err("V0 Validation Error: Breakpoint times not consecutive".to_string());
                }
                if b.time > MAX_TIME {
                    proof {
                        assert(!envelope_wf(envs@[e as int]@, self.metadata.duration as int));
                    }
                    return Err("V0 Validation Error: Breakpoint time out of range".to_string());
                }
                last_time = b.time;
                i += 1;
            }
            if last_time > self.metadata.duration {
                proof {
                    assert(env@.len() > 0);
                    assert(!envelope_wf(envs@[e as int]@, self.metadata.duration as int));
                }
                return Err(
                    "V0 Validation Error: event time is greater than the file duration".to_string(),
                );
            }
            proof {
                if env@.len() > 0 {
                    assert(env@[env@.len() - 1].time <= self.metadata.duration);
                }
                assert(envelope_wf(envs@[e as int]@, self.metadata.duration as int));
            }
            e += 1;
        }
        if self.voices.transients.len() > 0 {
            if self.voices.transients.len() != 2 {
                return Err("V0 Validation Error: Transients missing frequency points".to_string());
            }
            let ts0 = &self.voices.transients[0];
            let ts1 = &self.voices.transients[1];
            if ts0.len() != ts1.len() {
                return Err("V0 Validation Error: Transients missing pair".to_string());
            }
            let mut i: usize = 0;
            while i < ts0.len()
                invariant
                    self.voices.transients@.len() == 2,
                    ts0@ == self.voices.transients@[0]@,
                    ts1@ == self.voices.transients@[1]@,
                    ts0@.len() == ts1@.len(),
                    i <= ts0@.len(),
                    forall|k: int| 0 <= k < i ==> #[trigger] ts0@[k].time == ts1@[k].time,
                    forall|k: int| 0 <= k < i ==> 0 <= #[trigger] ts0@[k].amplitude <= SCALE,
                    forall|k: int| 0 <= k < i ==> 0 <= #[trigger] ts1@[k].amplitude <= SCALE,
                decreases ts0@.len() - i,
            {
                let a = ts0[i];
                let b = ts1[i];
                if a.time != b.time {
                    return Err("V0 Validation Error: Mismatch in Transient timestamp".to_string());
                }
                if a.amplitude < 0 || a.amplitude > SCALE || b.amplitude < 0 || b.amplitude
                    > SCALE {
                    return Err("V0 Validation Error: Transient amplitude out of range".to_string());
                }
                i += 1;
            }
        }
        Ok(self)
    }
}


impl DataModel {
    /// A deep copy of the legacy clip.
    pub fn duplicate(&self) -> (c: DataModel)
        ensures
            c.version == self.version,
            c.metadata.editor@ == self.metadata.editor@,
            c.metadata.duration == self.metadata.duration,
            c.voices.envelopes@.len() == self.voices.envelopes@.len(),
            forall|e: int|
                0 <= e < c.voices.envelopes@.len() ==> (#[trigger] c.voices.envelopes@[e])@
                    == self.voices.envelopes@[e]@,
            c.voices.transients@.len() == self.voices.transients@.len(),
            forall|e: int|
                0 <= e < c.voices.transients@.len() ==> (#[trigger] c.voices.transients@[e])@
                    == self.voices.transients@[e]@,
            v0_valid(*self) ==> v0_valid(c),
            v0_upgradable(*self) ==> v0_upgradable(c),
    {
        let envelopes = duplicate_envelopes(&self.voices.envelopes);
        let transients = duplicate_envelopes(&self.voices.transients);
        let c = DataModel {
            version: self.version,
            metadata: MetaData {
                editor: self.metadata.editor.clone(),
                duration: self.metadata.duration,
            },
            voices: Voices { envelopes, transients },
        };
        proof {
            if v0_valid(*self) {
                assert forall|e: int|
                    0 <= e < c.voices.envelopes@.len() implies envelope_wf(
                    #[trigger] c.voices.envelopes@[e]@,
                    c.metadata.duration as int,
                ) by {
                    assert(envelope_wf(self.voices.envelopes@[e]@, self.metadata.duration as int));
                };
                if c.voices.transients@.len() != 0 {
                    assert(c.voices.transients@[0]@ == self.voices.transients@[0]@);
                    assert(c.voices.transients@[1]@ == self.voices.transients@[1]@);
                }
                assert(c.voices.envelopes@[0]@ == self.voices.envelopes@[0]@);
            }
            if v0_upgradable(*self) {
                assert(c.voices.envelopes@[0]@ == self.voices.envelopes@[0]@);
                if c.voices.envelopes@.len() == 2 {
                    assert(c.voices.envelopes@[1]@ == self.voices.envelopes@[1]@);
                }
                if c.voices.transients@.len() == 2 {
                    assert(c.voices.transients@[0]@ == self.voices.transients@[0]@);
                    assert(c.voices.transients@[1]@ == self.voices.transients@[1]@);
                }
            }
        }
        c
    }
}

/// Copies a list of envelopes element for element.
fn duplicate_envelopes(src: &Vec<Envelope>) -> (r: Vec<Envelope>)
    ensures
        r@.len() == src@.len(),
        forall|e: int| 0 <= e < r@.len() ==> (#[trigger] r@[e])@ == src@[e]@,
{
    let mut r: Vec<Envelope> = Vec::new();
    let mut e: usize = 0;
    while e < src.len()
        invariant
            e <= src@.len(),
            r@.len() == e,
            forall|k: int| 0 <= k < e ==> (#[trigger] r@[k])@ == src@[k]@,
        decreases src@.len() - e,
    {
        let env = &src[e];
        let mut ne: Envelope = Vec::new();
        let mut i: usize = 0;
        while i < env.len()
            invariant
                i <= env@.len(),
                ne@ == env@.take(i as int),
            decreases env@.len() - i,
        {
            ne.push(env[i]);
            proof {
                assert(ne@ =~= env@.take(i + 1));
            }
            i += 1;
        }
        proof {
            assert(ne@ =~= env@);
        }
        r.push(ne);
        e += 1;
    }
    r
}

} // verus!
