//! Rendering of emphasis into the continuous amplitude envelope, for
//! players that cannot play transients natively.
//!
//! Around every breakpoint with emphasis the envelope is rewritten: a short
//! ducking to a near-zero amplitude before it, a burst at full amplitude,
//! and a short ducking after it; ordinary breakpoints inside those regions
//! are dropped. All inserted times are clamped so that the output stays in
//! time order.

use vstd::prelude::*;
use crate::fixed::{spec_lerp, MAX_TIME, SCALE};
use crate::model::{
    amp_bp_wf, amp_envelope_wf, amp_times_monotone, AmplitudeBreakpoint,
};

verus! {

/// Durations (in time units) and the near-zero amplitude used around an
/// emphasis. The ducking amplitude is kept small but not zero, since a fully
/// stopped motor would wake up late.
pub struct EmphasisParameters {
    pub ducking_before_length: i64,
    pub ducking_after_length: i64,
    pub emphasis_length: i64,
    pub ducking_amplitude: i64,
}

impl Default for EmphasisParameters {
    /// Thirty milliseconds for each region, ducking fully to zero.
    fn default() -> (p: EmphasisParameters)
        ensures
            p.ducking_before_length == 3000,
            p.emphasis_length == 3000,
            p.ducking_after_length == 3000,
            p.ducking_amplitude == 0,
    {
        EmphasisParameters {
            ducking_before_length: 3000,
            emphasis_length: 3000,
            ducking_after_length: 3000,
            ducking_amplitude: 0,
        }
    }
}

/// A well-formed output run: breakpoints in bounds, no emphasis left, times
/// never decreasing.
pub open spec fn run_wf(s: Seq<AmplitudeBreakpoint>) -> bool {
    &&& forall|i: int|
        0 <= i < s.len() ==> amp_bp_wf(#[trigger] s[i]) && s[i].emphasis is None
    &&& amp_times_monotone(s)
}

/// The time of the last breakpoint of a run, or 0 for an empty run.
pub open spec fn run_last(s: Seq<AmplitudeBreakpoint>) -> int {
    if s.len() > 0 {
        s[s.len() - 1].time as int
    } else {
        0
    }
}

/// No breakpoint of the envelope carries emphasis.
pub open spec fn no_emphasis(s: Seq<AmplitudeBreakpoint>) -> bool {
    forall|i: int| 0 <= i < s.len() ==> (#[trigger] s[i]).emphasis is None
}

/// The first breakpoint with emphasis at or after `i`, if any.
pub open spec fn spec_next_emph(s: Seq<AmplitudeBreakpoint>, i: int) -> Option<int>
    decreases s.len() - i,
{
    if i < 0 || i >= s.len() {
        None
    } else if s[i].emphasis is Some {
        Some(i)
    } else {
        spec_next_emph(s, i + 1)
    }
}

/// The last breakpoint with emphasis before `i`, if any.
pub open spec fn spec_prev_emph(s: Seq<AmplitudeBreakpoint>, i: int) -> Option<int>
    decreases i,
{
    if i <= 0 || i > s.len() {
        None
    } else if s[i - 1].emphasis is Some {
        Some(i - 1)
    } else {
        spec_prev_emph(s, i - 1)
    }
}

/// The last breakpoint before `i` whose time lies before `start`, if any.
pub open spec fn spec_last_before(s: Seq<AmplitudeBreakpoint>, i: int, start: int) -> Option<int>
    decreases i,
{
    if i <= 0 || i > s.len() {
        None
    } else if s[i - 1].time < start {
        Some(i - 1)
    } else {
        spec_last_before(s, i - 1, start)
    }
}

/// The first breakpoint at or after `i` whose time lies beyond `bound`, if
/// any.
pub open spec fn spec_first_after(s: Seq<AmplitudeBreakpoint>, i: int, bound: int) -> Option<int>
    decreases s.len() - i,
{
    if i < 0 || i >= s.len() {
        None
    } else if s[i].time > bound {
        Some(i)
    } else {
        spec_first_after(s, i + 1, bound)
    }
}

/// A plain breakpoint at the given time and amplitude.
pub open spec fn spec_bp_at(time: int, amplitude: int) -> AmplitudeBreakpoint {
    AmplitudeBreakpoint { time: time as i64, amplitude: amplitude as i64, emphasis: None }
}

/// The envelope between breakpoints `a` and `b`, sampled at `t`, as a plain
/// breakpoint.
pub open spec fn spec_interp_bp(
    a: AmplitudeBreakpoint,
    b: AmplitudeBreakpoint,
    t: int,
) -> AmplitudeBreakpoint {
    AmplitudeBreakpoint {
        time: t as i64,
        amplitude: spec_lerp(
            a.time as int,
            b.time as int,
            a.amplitude as int,
            b.amplitude as int,
            t,
        ) as i64,
        emphasis: None,
    }
}

/// The breakpoints that the ducking area before the emphasis at `i` appends
/// to a run whose last time is `last`: nothing when the run already reaches
/// the emphasis time (an emphasis on the first breakpoint gets no ducking
/// before it); otherwise the interpolated envelope value at the region
/// start when some breakpoint predates it, then the ducking amplitude at
/// the region start and at the emphasis itself.
pub open spec fn spec_before_area(
    s: Seq<AmplitudeBreakpoint>,
    lb: int,
    duck: int,
    i: int,
    last: int,
) -> Seq<AmplitudeBreakpoint> {
    let et = s[i].time as int;
    if et <= last {
        Seq::empty()
    } else {
        let rs: int = if et - lb < 0 {
            0
        } else {
            et - lb
        };
        let start: int = if rs < last {
            last
        } else {
            rs
        };
        let head: Seq<AmplitudeBreakpoint> = match spec_last_before(s, i, start) {
            Some(ib) => seq![spec_interp_bp(s[ib], s[ib + 1], start)],
            None => Seq::empty(),
        };
        head + seq![spec_bp_at(start, duck), spec_bp_at(et, duck)]
    }
}

/// The breakpoints that the emphasis burst and the ducking area after it
/// append to a run whose last time is `last`: nothing when the burst
/// collapses (a severe collision with the previous emphasis); the burst at
/// full amplitude alone when the emphasis sits on the last breakpoint of
/// the clip; otherwise the burst, the ducking amplitude over the after
/// area, and the interpolated envelope value at the area's end when some
/// breakpoint lies beyond it.
pub open spec fn spec_emphasis_area(
    s: Seq<AmplitudeBreakpoint>,
    le: int,
    la: int,
    duck: int,
    i: int,
    last: int,
) -> Seq<AmplitudeBreakpoint> {
    let et = s[i].time as int;
    let start: int = if et >= last {
        et
    } else {
        last
    };
    let stop: int = if et + le >= last {
        et + le
    } else {
        last
    };
    if stop <= start {
        Seq::empty()
    } else if i == s.len() - 1 {
        seq![spec_bp_at(start, SCALE as int), spec_bp_at(stop, SCALE as int)]
    } else {
        let after_end = stop + la;
        let tail: Seq<AmplitudeBreakpoint> = match spec_first_after(s, i + 1, after_end) {
            Some(ia) => seq![spec_interp_bp(s[ia - 1], s[ia], after_end)],
            None => Seq::empty(),
        };
        seq![
            spec_bp_at(start, SCALE as int),
            spec_bp_at(stop, SCALE as int),
            spec_bp_at(stop, duck),
            spec_bp_at(after_end, duck),
        ] + tail
    }
}

/// Whether the plain breakpoint at `i` falls inside the ducking-before or
/// emphasis region of the next emphasized breakpoint, and is therefore
/// masked by its burst.
pub open spec fn spec_masked_by_next(s: Seq<AmplitudeBreakpoint>, i: int, lb: int) -> bool {
    match spec_next_emph(s, i) {
        Some(ne) => {
            let net = s[ne].time as int;
            let rs: int = if net - lb < 0 {
                0
            } else {
                net - lb
            };
            rs <= s[i].time && s[i].time <= net
        },
        None => false,
    }
}

/// Whether the plain breakpoint at `i` falls inside the emphasis or
/// ducking-after region of the previous emphasized breakpoint, and is
/// therefore masked by its burst.
pub open spec fn spec_masked_by_prev(
    s: Seq<AmplitudeBreakpoint>,
    i: int,
    le: int,
    la: int,
) -> bool {
    match spec_prev_emph(s, i) {
        Some(pe) => s[pe].time <= s[i].time && s[i].time <= s[pe].time + le + la,
        None => false,
    }
}

/// The emphasis rendering of the first `i` breakpoints of `s`: every
/// emphasized breakpoint becomes its ducking-before area, burst and
/// ducking-after area; a plain breakpoint masked by a neighbouring emphasis
/// is dropped; every other plain breakpoint passes through unchanged, in
/// its original order.
pub open spec fn spec_emphasize(
    s: Seq<AmplitudeBreakpoint>,
    p: EmphasisParameters,
    i: int,
) -> Seq<AmplitudeBreakpoint>
    decreases i,
{
    if i <= 0 {
        Seq::empty()
    } else {
        let prev = spec_emphasize(s, p, i - 1);
        if s[i - 1].emphasis is Some {
            let with_before = prev + spec_before_area(
                s,
                p.ducking_before_length as int,
                p.ducking_amplitude as int,
                i - 1,
                run_last(prev),
            );
            with_before + spec_emphasis_area(
                s,
                p.emphasis_length as int,
                p.ducking_after_length as int,
                p.ducking_amplitude as int,
                i - 1,
                run_last(with_before),
            )
        } else if spec_masked_by_next(s, i - 1, p.ducking_before_length as int)
            || spec_masked_by_prev(
            s,
            i - 1,
            p.emphasis_length as int,
            p.ducking_after_length as int,
        ) {
            prev
        } else {
            prev.push(s[i - 1])
        }
    }
}

/// `spec_last_before` is the only value with its characterisation: below
/// `start` at its index, at or above `start` everywhere after it.
proof fn lemma_last_before_unique(
    s: Seq<AmplitudeBreakpoint>,
    i: int,
    start: int,
    r: Option<int>,
)
    requires
        0 <= i <= s.len(),
        match r {
            Some(ib) => 0 <= ib < i && s[ib].time < start && forall|p: int|
                ib < p < i ==> (#[trigger] s[p]).time >= start,
            None => forall|p: int| 0 <= p < i ==> (#[trigger] s[p]).time >= start,
        },
    ensures
        r == spec_last_before(s, i, start),
    decreases i,
{
    if i > 0 {
        if s[i - 1].time < start {
            assert(r == Some(i - 1)) by {
                match r {
                    Some(ib) => {
                        if ib < i - 1 {
                            assert(s[i - 1].time >= start);
                        }
                    },
                    None => {
                        assert(s[i - 1].time >= start);
                    },
                }
            }
        } else {
            lemma_last_before_unique(s, i - 1, start, r);
        }
    }
}

/// `spec_first_after` is the only value with its characterisation: beyond
/// `bound` at its index, at or below `bound` everywhere before it.
proof fn lemma_first_after_unique(
    s: Seq<AmplitudeBreakpoint>,
    i: int,
    bound: int,
    r: Option<int>,
)
    requires
        0 <= i <= s.len(),
        match r {
            Some(ia) => i <= ia < s.len() && s[ia].time > bound && forall|p: int|
                i <= p < ia ==> (#[trigger] s[p]).time <= bound,
            None => forall|p: int| i <= p < s.len() ==> (#[trigger] s[p]).time <= bound,
        },
    ensures
        r == spec_first_after(s, i, bound),
    decreases s.len() - i,
{
    if i < s.len() {
        if s[i].time > bound {
            assert(r == Some(i)) by {
                match r {
                    Some(ia) => {
                        if ia > i {
                            assert(s[i].time <= bound);
                        }
                    },
                    None => {
                        assert(s[i].time <= bound);
                    },
                }
            }
        } else {
            lemma_first_after_unique(s, i + 1, bound, r);
        }
    }
}

/// `spec_next_emph` is the only value with its characterisation: emphasis
/// at its index, none before it.
proof fn lemma_next_emph_unique(s: Seq<AmplitudeBreakpoint>, i: int, r: Option<int>)
    requires
        0 <= i <= s.len(),
        match r {
            Some(ne) => i <= ne < s.len() && s[ne].emphasis is Some && forall|k: int|
                i <= k < ne ==> (#[trigger] s[k]).emphasis is None,
            None => forall|k: int| i <= k < s.len() ==> (#[trigger] s[k]).emphasis is None,
        },
    ensures
        r == spec_next_emph(s, i),
    decreases s.len() - i,
{
    if i < s.len() {
        if s[i].emphasis is Some {
            assert(r == Some(i)) by {
                match r {
                    Some(ne) => {
                        if ne > i {
                            assert(s[i].emphasis is None);
                        }
                    },
                    None => {
                        assert(s[i].emphasis is None);
                    },
                }
            }
        } else {
            lemma_next_emph_unique(s, i + 1, r);
        }
    }
}

/// `spec_prev_emph` is the only value with its characterisation: emphasis
/// at its index, none after it.
proof fn lemma_prev_emph_unique(s: Seq<AmplitudeBreakpoint>, i: int, r: Option<int>)
    requires
        0 <= i <= s.len(),
        match r {
            Some(pe) => 0 <= pe < i && s[pe].emphasis is Some && forall|k: int|
                pe < k < i ==> (#[trigger] s[k]).emphasis is None,
            None => forall|k: int| 0 <= k < i ==> (#[trigger] s[k]).emphasis is None,
        },
    ensures
        r == spec_prev_emph(s, i),
    decreases i,
{
    if i > 0 {
        if s[i - 1].emphasis is Some {
            assert(r == Some(i - 1)) by {
                match r {
                    Some(pe) => {
                        if pe < i - 1 {
                            assert(s[i - 1].emphasis is None);
                        }
                    },
                    None => {
                        assert(s[i - 1].emphasis is None);
                    },
                }
            }
        } else {
            lemma_prev_emph_unique(s, i - 1, r);
        }
    }
}

/// Finds the first breakpoint with emphasis at or after `from`.
fn find_next_emphasis(breakpoints: &Vec<AmplitudeBreakpoint>, from: usize) -> (r: Option<usize>)
    ensures
        match r {
            Some(j) => {
                &&& from <= j < breakpoints@.len()
                &&& breakpoints@[j as int].emphasis is Some
                &&& forall|k: int|
                    from <= k < j ==> (#[trigger] breakpoints@[k]).emphasis is None
            },
            None => forall|k: int|
                from <= k < breakpoints@.len() ==> (#[trigger] breakpoints@[k]).emphasis is None,
        },
{
    let mut j = from;
    while j < breakpoints.len()
        invariant
            from <= j,
            forall|k: int| from <= k < j ==> (#[trigger] breakpoints@[k]).emphasis is None,
        decreases breakpoints@.len() - j,
    {
        if breakpoints[j].emphasis.is_some() {
            return Some(j);
        }
        j += 1;
    }
    None
}

/// Appends the breakpoints of the ducking area before the emphasis at
/// `emphasis_index`: the envelope value at the region start, then the
/// ducking amplitude at the region start and at the emphasis itself.
/// Nothing is appended when the run already reaches the emphasis time, so
/// an emphasis on the first breakpoint of a clip gets no ducking before it.
fn push_ducking_before_area(
    result: &mut Vec<AmplitudeBreakpoint>,
    breakpoints: &Vec<AmplitudeBreakpoint>,
    ducking_before_length: i64,
    ducking_amplitude: i64,
    emphasis_index: usize,
)
    requires
        amp_envelope_wf(breakpoints@),
        emphasis_index < breakpoints@.len(),
        run_wf(old(result)@),
        0 <= ducking_before_length,
        0 <= ducking_amplitude <= SCALE,
        0 <= run_last(old(result)@) <= MAX_TIME,
    ensures
        run_wf(final(result)@),
        old(result)@.len() <= final(result)@.len(),
        forall|k: int|
            0 <= k < old(result)@.len() ==> #[trigger] final(result)@[k] == old(result)@[k],
        forall|k: int|
            old(result)@.len() <= k < final(result)@.len() ==> run_last(old(result)@)
                <= (#[trigger] final(result)@[k]).time
                <= breakpoints@[emphasis_index as int].time,
        breakpoints@[emphasis_index as int].time <= run_last(old(result)@) ==> final(result)@
            == old(result)@,
        final(result)@ == old(result)@ + spec_before_area(
            breakpoints@,
            ducking_before_length as int,
            ducking_amplitude as int,
            emphasis_index as int,
            run_last(old(result)@),
        ),
{
    let ghost area = spec_before_area(
        breakpoints@,
        ducking_before_length as int,
        ducking_amplitude as int,
        emphasis_index as int,
        run_last(old(result)@),
    );
    let e_bp = breakpoints[emphasis_index];
    let last_time: i64 = if result.len() > 0 {
        result[result.len() - 1].time
    } else {
        0
    };
    proof {
        assert(amp_bp_wf(breakpoints@[emphasis_index as int]));
        assert(last_time == run_last(old(result)@));
    }
    if e_bp.time <= last_time {
        proof {
            assert(result@ =~= old(result)@ + area);
        }
        return ;
    }
    let mut start: i64 = e_bp.time - ducking_before_length;
    if start < 0 {
        start = 0;
    }
    if start < last_time {
        start = last_time;
    }
    // The last breakpoint before the region start, scanned forward so that
    // the latest match wins.
    let mut idx_before: Option<usize> = None;
    let mut k: usize = 0;
    while k < emphasis_index
        invariant
            emphasis_index < breakpoints@.len(),
            k <= emphasis_index,
            match idx_before {
                Some(ib) => {
                    &&& ib < k
                    &&& breakpoints@[ib as int].time < start
                    &&& forall|p: int|
                        ib < p < k ==> (#[trigger] breakpoints@[p]).time >= start
                },
                None => forall|p: int|
                    0 <= p < k ==> (#[trigger] breakpoints@[p]).time >= start,
            },
        decreases emphasis_index - k,
    {
        if breakpoints[k].time < start {
            idx_before = Some(k);
        }
        k += 1;
    }
    let ghost pre = result@;
    proof {
        let gib = match idx_before {
            Some(ib) => Some(ib as int),
            None => None::<int>,
        };
        lemma_last_before_unique(breakpoints@, emphasis_index as int, start as int, gib);
    }
    match idx_before {
        Some(ib) => {
            proof {
                assert(amp_bp_wf(breakpoints@[ib as int]));
                assert(amp_bp_wf(breakpoints@[ib + 1]));
                assert(breakpoints@[ib as int].time <= breakpoints@[ib + 1].time);
                if ib + 1 < emphasis_index {
                    assert(breakpoints@[ib + 1].time >= start);
                } else {
                    assert(breakpoints@[emphasis_index as int].time >= start);
                }
            }
            let nb = AmplitudeBreakpoint::from_interpolated_breakpoints(
                &breakpoints[ib],
                &breakpoints[ib + 1],
                start,
            );
            proof {
                assert(nb == spec_interp_bp(
                    breakpoints@[ib as int],
                    breakpoints@[ib + 1],
                    start as int,
                ));
            }
            result.push(nb);
        },
        None => {},
    }
    result.push(AmplitudeBreakpoint { time: start, amplitude: ducking_amplitude, emphasis: None });
    result.push(AmplitudeBreakpoint {
        time: e_bp.time,
        amplitude: ducking_amplitude,
        emphasis: None,
    });
    proof {
        assert(result@ =~= pre + area);
        assert forall|p: int, q: int| 0 <= p <= q < result@.len() implies #[trigger] result@[p].time
            <= #[trigger] result@[q].time by {
            if p < pre.len() && q >= pre.len() {
                assert(result@[p] == pre[p]);
                assert(pre[p].time <= pre[pre.len() - 1].time);
            }
        };
    }
}

/// Appends the emphasis burst (full amplitude for the emphasis length) and,
/// unless the emphasis sits on the last breakpoint of the clip, the ducking
/// area after it, closed with the interpolated envelope value. When the
/// burst would collapse to nothing (a severe collision with the previous
/// emphasis), nothing is appended.
fn push_emphasis_and_after_area(
    result: &mut Vec<AmplitudeBreakpoint>,
    breakpoints: &Vec<AmplitudeBreakpoint>,
    emphasis_length: i64,
    ducking_after_length: i64,
    ducking_amplitude: i64,
    emphasis_index: usize,
)
    requires
        amp_envelope_wf(breakpoints@),
        emphasis_index < breakpoints@.len(),
        run_wf(old(result)@),
        0 <= emphasis_length,
        0 <= ducking_after_length,
        0 <= ducking_amplitude <= SCALE,
        0 <= run_last(old(result)@) <= MAX_TIME,
        breakpoints@[breakpoints@.len() - 1].time + emphasis_length + ducking_after_length
            <= MAX_TIME,
    ensures
        run_wf(final(result)@),
        old(result)@.len() <= final(result)@.len(),
        forall|k: int|
            0 <= k < old(result)@.len() ==> #[trigger] final(result)@[k] == old(result)@[k],
        forall|k: int|
            old(result)@.len() <= k < final(result)@.len() ==> run_last(old(result)@)
                <= (#[trigger] final(result)@[k]).time
                <= breakpoints@[emphasis_index as int].time + emphasis_length
                + ducking_after_length,
        emphasis_index == breakpoints@.len() - 1 ==> forall|k: int|
            old(result)@.len() <= k < final(result)@.len()
                ==> (#[trigger] final(result)@[k]).amplitude == SCALE,
        emphasis_length > 0 && run_last(old(result)@)
            < breakpoints@[emphasis_index as int].time + emphasis_length ==> {
            &&& final(result)@.len() > old(result)@.len()
            &&& final(result)@[old(result)@.len() as int] == (AmplitudeBreakpoint {
                time: (if breakpoints@[emphasis_index as int].time >= run_last(old(result)@) {
                    breakpoints@[emphasis_index as int].time
                } else {
                    run_last(old(result)@) as i64
                }),
                amplitude: SCALE as i64,
                emphasis: None,
            })
        },
        final(result)@ == old(result)@ + spec_emphasis_area(
            breakpoints@,
            emphasis_length as int,
            ducking_after_length as int,
            ducking_amplitude as int,
            emphasis_index as int,
            run_last(old(result)@),
        ),
{
    let ghost area = spec_emphasis_area(
        breakpoints@,
        emphasis_length as int,
        ducking_after_length as int,
        ducking_amplitude as int,
        emphasis_index as int,
        run_last(old(result)@),
    );
    let e_bp = breakpoints[emphasis_index];
    let last_time: i64 = if result.len() > 0 {
        result[result.len() - 1].time
    } else {
        0
    };
    proof {
        assert(amp_bp_wf(breakpoints@[emphasis_index as int]));
        assert(breakpoints@[emphasis_index as int].time
            <= breakpoints@[breakpoints@.len() - 1].time);
        assert(last_time == run_last(old(result)@));
    }
    let start: i64 = if e_bp.time >= last_time {
        e_bp.time
    } else {
        last_time
    };
    let stop: i64 = if e_bp.time + emphasis_length >= last_time {
        e_bp.time + emphasis_length
    } else {
        last_time
    };
    if stop <= start {
        proof {
            assert(result@ =~= old(result)@ + area);
        }
        return ;
    }
    let ghost pre = result@;
    result.push(AmplitudeBreakpoint { time: start, amplitude: SCALE, emphasis: None });
    result.push(AmplitudeBreakpoint { time: stop, amplitude: SCALE, emphasis: None });
    if emphasis_index == breakpoints.len() - 1 {
        proof {
            assert(result@ =~= pre + area);
            assert forall|p: int, q: int| 0 <= p <= q < result@.len() implies #[trigger] result@[p].time
                <= #[trigger] result@[q].time by {
                if p < pre.len() && q >= pre.len() {
                    assert(result@[p] == pre[p]);
                    assert(pre[p].time <= pre[pre.len() - 1].time);
                }
            };
        }
        return ;
    }
    let after_end: i64 = stop + ducking_after_length;
    result.push(AmplitudeBreakpoint { time: stop, amplitude: ducking_amplitude, emphasis: None });
    result.push(AmplitudeBreakpoint {
        time: after_end,
        amplitude: ducking_amplitude,
        emphasis: None,
    });
    // The first breakpoint after the ducking area, if any, gives the
    // interpolated envelope value at the area's end.
    let mut idx_after: Option<usize> = None;
    let mut k: usize = emphasis_index + 1;
    while k < breakpoints.len() && idx_after.is_none()
        invariant
            emphasis_index + 1 <= k,
            k <= breakpoints@.len(),
            match idx_after {
                Some(ia) => {
                    &&& emphasis_index < ia < breakpoints@.len()
                    &&& breakpoints@[ia as int].time > after_end
                    &&& forall|p: int|
                        emphasis_index < p < ia ==> (#[trigger] breakpoints@[p]).time <= after_end
                },
                None => forall|p: int|
                    emphasis_index < p < k ==> (#[trigger] breakpoints@[p]).time <= after_end,
            },
        decreases breakpoints@.len() - k,
    {
        if breakpoints[k].time > after_end {
            idx_after = Some(k);
        }
        k += 1;
    }
    proof {
        let gia = match idx_after {
            Some(ia) => Some(ia as int),
            None => None::<int>,
        };
        lemma_first_after_unique(breakpoints@, emphasis_index + 1, after_end as int, gia);
    }
    match idx_after {
        Some(ia) => {
            proof {
                assert(amp_bp_wf(breakpoints@[ia as int]));
                assert(amp_bp_wf(breakpoints@[ia - 1]));
                assert(breakpoints@[ia - 1].time <= breakpoints@[ia as int].time);
                if ia - 1 > emphasis_index {
                    assert(breakpoints@[ia - 1].time <= after_end);
                } else {
                    assert(breakpoints@[emphasis_index as int].time <= after_end);
                }
            }
            let nb = AmplitudeBreakpoint::from_interpolated_breakpoints(
                &breakpoints[ia - 1],
                &breakpoints[ia],
                after_end,
            );
            proof {
                assert(nb == spec_interp_bp(
                    breakpoints@[ia - 1],
                    breakpoints@[ia as int],
                    after_end as int,
                ));
            }
            result.push(nb);
        },
        None => {},
    }
    proof {
        assert(result@ =~= pre + area);
        assert forall|p: int, q: int| 0 <= p <= q < result@.len() implies #[trigger] result@[p].time
            <= #[trigger] result@[q].time by {
            if p < pre.len() && q >= pre.len() {
                assert(result@[p] == pre[p]);
                assert(pre[p].time <= pre[pre.len() - 1].time);
            }
        };
    }
}

/// Renders the emphasis of breakpoints into the continuous amplitude signal.
///
/// Every breakpoint with emphasis is replaced by a ducking region before it,
/// a burst at full amplitude, and a ducking region after it; ordinary
/// breakpoints inside those regions are dropped, and all inserted times are
/// clamped to keep the output in time order. A clip without any emphasis is
/// returned unchanged.
///
/// The output is pinned exactly by `spec_emphasize`: each region's
/// breakpoints, the collapse of colliding bursts, and the unchanged
/// pass-through of every unmasked plain breakpoint all follow from it.
#[verifier::loop_isolation(false)]
#[verifier::rlimit(60)]
pub fn emphasize(
    amplitude_breakpoints: &Vec<AmplitudeBreakpoint>,
    parameters: EmphasisParameters,
) -> (r: Vec<AmplitudeBreakpoint>)
    requires
        amp_envelope_wf(amplitude_breakpoints@),
        0 <= parameters.ducking_before_length,
        0 <= parameters.emphasis_length,
        0 <= parameters.ducking_after_length,
        0 <= parameters.ducking_amplitude <= SCALE,
        amplitude_breakpoints@[amplitude_breakpoints@.len() - 1].time + parameters.emphasis_length
            + parameters.ducking_after_length <= MAX_TIME,
    ensures
        r@ == spec_emphasize(
            amplitude_breakpoints@,
            parameters,
            amplitude_breakpoints@.len() as int,
        ),
        run_wf(r@),
        no_emphasis(amplitude_breakpoints@) ==> r@ == amplitude_breakpoints@,
        parameters.emphasis_length > 0 ==> r@.len() > 0,
        run_last(r@) <= amplitude_breakpoints@[amplitude_breakpoints@.len() - 1].time
            + parameters.emphasis_length + parameters.ducking_after_length,
        amplitude_breakpoints@[0].emphasis is Some && amplitude_breakpoints@[0].time == 0
            && parameters.emphasis_length > 0 ==> r@.len() > 0 && r@[0] == (AmplitudeBreakpoint {
            time: 0,
            amplitude: SCALE as i64,
            emphasis: None,
        }),
        // the rendered envelope validates again as a clip's amplitude
        // envelope, whenever the appended regions fit under the clip time
        // limit
        parameters.emphasis_length > 0 && amplitude_breakpoints@[amplitude_breakpoints@.len()
            - 1].time + parameters.emphasis_length + parameters.ducking_after_length
            <= crate::fixed::CLIP_TIME_LIMIT ==> crate::model::amp_envelope_valid(r@)
            && run_last(r@) <= crate::fixed::CLIP_TIME_LIMIT,
{
    let ghost s = amplitude_breakpoints@;
    let lb = parameters.ducking_before_length;
    let le = parameters.emphasis_length;
    let la = parameters.ducking_after_length;
    let duck = parameters.ducking_amplitude;
    let mut out: Vec<AmplitudeBreakpoint> = Vec::new();
    let mut prev_em: Option<usize> = None;
    let mut next_em: Option<usize> = find_next_emphasis(amplitude_breakpoints, 0);
    let mut i: usize = 0;
    while i < amplitude_breakpoints.len()
        invariant
            s == amplitude_breakpoints@,
            amp_envelope_wf(s),
            0 <= lb,
            0 <= le,
            0 <= la,
            0 <= duck <= SCALE,
            s[s.len() - 1].time + le + la <= MAX_TIME,
            i <= s.len(),
            run_wf(out@),
            match next_em {
                Some(ne) => {
                    &&& i <= ne < s.len()
                    &&& s[ne as int].emphasis is Some
                    &&& forall|k: int| i <= k < ne ==> (#[trigger] s[k]).emphasis is None
                },
                None => forall|k: int| i <= k < s.len() ==> (#[trigger] s[k]).emphasis is None,
            },
            out@ == spec_emphasize(s, parameters, i as int),
            lb == parameters.ducking_before_length,
            le == parameters.emphasis_length,
            la == parameters.ducking_after_length,
            duck == parameters.ducking_amplitude,
            match prev_em {
                Some(pe) => {
                    &&& pe < i
                    &&& s[pe as int].emphasis is Some
                    &&& forall|k: int| pe < k < i ==> (#[trigger] s[k]).emphasis is None
                    &&& run_last(out@) <= (if s[pe as int].time + le + la > (if i > 0 {
                        s[i - 1].time as int
                    } else {
                        0
                    }) {
                        s[pe as int].time + le + la
                    } else {
                        (if i > 0 {
                            s[i - 1].time as int
                        } else {
                            0
                        })
                    })
                },
                None => {
                    &&& forall|k: int| 0 <= k < i ==> (#[trigger] s[k]).emphasis is None
                    &&& run_last(out@) <= (if i > 0 {
                        s[i - 1].time as int
                    } else {
                        0
                    })
                },
            },
            0 <= run_last(out@) <= MAX_TIME,
            i == 0 ==> out@.len() == 0,
            no_emphasis(s) ==> out@ =~= s.take(i as int),
            le > 0 && prev_em is Some ==> out@.len() > 0,
            s[0].emphasis is Some && s[0].time == 0 && le > 0 && i > 0 ==> out@.len() > 0
                && out@[0] == (AmplitudeBreakpoint {
                time: 0,
                amplitude: SCALE as i64,
                emphasis: None,
            }),
        decreases s.len() - i,
    {
        let bp = amplitude_breakpoints[i];
        proof {
            assert(amp_bp_wf(s[i as int]));
        }
        match bp.emphasis {
            None => {
                let skip_before: bool = match next_em {
                    None => false,
                    Some(ne) => {
                        let net = amplitude_breakpoints[ne].time;
                        let mut rs: i64 = net - lb;
                        if rs < 0 {
                            rs = 0;
                        }
                        rs <= bp.time && bp.time <= net
                    },
                };
                let skip_after: bool = match prev_em {
                    None => false,
                    Some(pe) => {
                        let pet = amplitude_breakpoints[pe].time;
                        proof {
                            assert(amp_bp_wf(s[pe as int]));
                            assert(s[pe as int].time <= s[s.len() - 1].time);
                        }
                        pet <= bp.time && bp.time <= pet + le + la
                    },
                };
                proof {
                    let gnext = match next_em {
                        Some(ne) => Some(ne as int),
                        None => None::<int>,
                    };
                    let gprev = match prev_em {
                        Some(pe) => Some(pe as int),
                        None => None::<int>,
                    };
                    lemma_next_emph_unique(s, i as int, gnext);
                    lemma_prev_emph_unique(s, i as int, gprev);
                    assert(skip_before == spec_masked_by_next(s, i as int, lb as int));
                    assert(skip_after == spec_masked_by_prev(s, i as int, le as int, la as int));
                }
                if !skip_before && !skip_after {
                    proof {
                        match prev_em {
                            Some(pe) => {
                                assert(s[pe as int].time <= s[i as int].time);
                            },
                            None => {
                                if i > 0 {
                                    assert(s[i - 1].time <= s[i as int].time);
                                }
                            },
                        }
                    }
                    let ghost pre = out@;
                    out.push(bp);
                    proof {
                        assert forall|p: int, q: int| 0 <= p <= q < out@.len() implies
                            #[trigger] out@[p].time <= #[trigger] out@[q].time by {
                            if p < pre.len() && q >= pre.len() {
                                assert(out@[p] == pre[p]);
                                assert(pre[p].time <= pre[pre.len() - 1].time);
                            }
                        };
                        if no_emphasis(s) {
                            assert(out@ =~= s.take(i + 1));
                        }
                        assert(out@ == spec_emphasize(s, parameters, i + 1));
                    }
                } else {
                    proof {
                        assert(out@ == spec_emphasize(s, parameters, i + 1));
                        if i > 0 {
                            assert(s[i - 1].time <= s[i as int].time);
                        }
                        if no_emphasis(s) {
                            match next_em {
                                Some(ne) => assert(s[ne as int].emphasis is Some),
                                None => {},
                            }
                            match prev_em {
                                Some(pe) => assert(s[pe as int].emphasis is Some),
                                None => {},
                            }
                            assert(false);
                        }
                    }
                }
            },
            Some(_) => {
                proof {
                    assert(s[i as int].time <= s[s.len() - 1].time);
                    match prev_em {
                        Some(pe) => {
                            assert(s[pe as int].time <= s[i as int].time);
                        },
                        None => {
                            if i > 0 {
                                assert(s[i - 1].time <= s[i as int].time);
                            }
                        },
                    }
                }
                let ghost out0 = out@;
                push_ducking_before_area(&mut out, amplitude_breakpoints, lb, duck, i);
                let ghost out1 = out@;
                push_emphasis_and_after_area(&mut out, amplitude_breakpoints, le, la, duck, i);
                proof {
                    assert(out@ == spec_emphasize(s, parameters, i + 1));
                    if i == 0 && s[0].emphasis is Some && s[0].time == 0 && le > 0 {
                        assert(out0.len() == 0);
                        assert(run_last(out0) == 0);
                        assert(out1 == out0);
                        assert(run_last(out1) < s[0].time + le);
                        assert(out@.len() > 0);
                        assert(out@[0] == (AmplitudeBreakpoint {
                            time: 0,
                            amplitude: SCALE as i64,
                            emphasis: None,
                        }));
                    }
                }
                prev_em = Some(i);
                next_em = find_next_emphasis(amplitude_breakpoints, i + 1);
            },
        }
        i += 1;
    }
    proof {
        if no_emphasis(s) {
            assert(out@ =~= s.take(s.len() as int));
            assert(s.take(s.len() as int) =~= s);
        }
        match prev_em {
            Some(pe) => {
                assert(s[pe as int].time <= s[s.len() - 1].time);
            },
            None => {
                if s.len() > 0 {
                    assert(s[s.len() - 1].time >= 0);
                }
            },
        }
    }
    out
}

} // verus!
