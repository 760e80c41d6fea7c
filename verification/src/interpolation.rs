//! Resampling of the amplitude envelope to a minimum time step, with
//! amplitude values that fall into the same quantization bin removed.

use vstd::prelude::*;
use crate::fixed::{
    lemma_round_div_exact, lemma_round_div_monotone, lemma_round_div_range, round_div,
    spec_round_div, MAX_TIME, SCALE,
};
use crate::model::{amp_envelope_wf, AmplitudeBreakpoint};

verus! {

/// Two to the power `e`.
pub open spec fn spec_pow2(e: nat) -> nat
    decreases e,
{
    if e == 0 {
        1
    } else {
        2 * spec_pow2((e - 1) as nat)
    }
}

proof fn lemma_pow2_le(a: nat, b: nat)
    requires
        a <= b,
    ensures
        spec_pow2(a) <= spec_pow2(b),
    decreases b,
{
    if a < b && b > 0 {
        lemma_pow2_le(a, (b - 1) as nat);
    }
}

/// Parameters of the resampling pass.
#[derive(Debug, PartialEq, Eq, Structural)]
pub struct InterpolationParameters {
    /// Number of amplitude values a player can distinguish; samples whose
    /// amplitudes quantize to the same of these values are redundant.
    pub q_depth: u32,
    /// Minimum spacing of interpolated breakpoints, in time units. Zero
    /// disables interpolation.
    pub min_time_step: i64,
}

impl InterpolationParameters {
    /// Builds parameters from an amplitude bit depth and a minimum time
    /// step; a non-positive time step disables interpolation.
    pub fn new(q_bits: u32, min_time_step: i64) -> (p: InterpolationParameters)
        requires
            q_bits <= 16,
        ensures
            p.q_depth == spec_pow2(q_bits as nat),
            1 <= p.q_depth <= 65536,
            p.min_time_step == if min_time_step > 0 {
                min_time_step
            } else {
                0
            },
    {
        let mut d: u32 = 1;
        let mut i: u32 = 0;
        while i < q_bits
            invariant
                i <= q_bits <= 16,
                d == spec_pow2(i as nat),
                d <= 65536,
            decreases q_bits - i,
        {
            proof {
                lemma_pow2_le(i as nat, 15);
                assert(spec_pow2(15) == 32768) by {
                    reveal_with_fuel(spec_pow2, 16);
                }
            }
            d = d * 2;
            i += 1;
        }
        proof {
            lemma_pow2_le(0, q_bits as nat);
            lemma_pow2_le(q_bits as nat, 16);
            assert(spec_pow2(16) == 65536) by {
                reveal_with_fuel(spec_pow2, 17);
            }
        }
        let step: i64 = if min_time_step > 0 {
            min_time_step
        } else {
            0
        };
        InterpolationParameters { q_depth: d, min_time_step: step }
    }
}

/// The quantization bin of an amplitude: the nearest of the `q` evenly
/// spaced representable values.
pub open spec fn spec_bin(a: int, q: int) -> int {
    spec_round_div(a * q, SCALE as int)
}

/// The time of sample `k` out of `n` evenly spaced samples over `[ta, tb]`.
pub open spec fn spec_sample_time(ta: int, tb: int, n: int, k: int) -> int {
    ta + spec_round_div(k * (tb - ta), n - 1)
}

/// The amplitude of sample `k`: the linear interpolation from `va` to `vb`
/// at fraction `k / (n - 1)`.
pub open spec fn spec_sample_amp(va: int, vb: int, n: int, k: int) -> int {
    if vb >= va {
        va + spec_round_div((vb - va) * k, n - 1)
    } else {
        va - spec_round_div((va - vb) * k, n - 1)
    }
}

/// The samples kept from positions `k` onward, given the quantization bin
/// `cur` of the sample kept last. The first and last samples always stay.
pub open spec fn spec_seg_rec(
    ta: int,
    tb: int,
    va: int,
    vb: int,
    n: int,
    q: int,
    k: int,
    cur: int,
) -> Seq<AmplitudeBreakpoint>
    decreases n - k,
{
    if k < 0 || k >= n {
        Seq::empty()
    } else {
        let t = spec_sample_time(ta, tb, n, k);
        let a = spec_sample_amp(va, vb, n, k);
        let bin = spec_bin(a, q);
        if k == 0 || k == n - 1 || bin != cur {
            seq![
                AmplitudeBreakpoint { time: t as i64, amplitude: a as i64, emphasis: None },
            ] + spec_seg_rec(ta, tb, va, vb, n, q, k + 1, bin)
        } else {
            spec_seg_rec(ta, tb, va, vb, n, q, k + 1, cur)
        }
    }
}

/// How many samples a pair of breakpoints is split into.
pub open spec fn spec_point_count(interval: int, step: int) -> int {
    if step > 0 {
        interval / step + 1
    } else {
        1
    }
}

/// The breakpoints that one pair of consecutive input breakpoints
/// contributes: evenly spaced samples with redundant ones removed when the
/// pair spans more than the minimum time step, and just the two endpoints
/// otherwise. Emphasis is not carried over.
pub open spec fn spec_segment(
    a: AmplitudeBreakpoint,
    b: AmplitudeBreakpoint,
    q: int,
    step: int,
) -> Seq<AmplitudeBreakpoint> {
    let interval = b.time - a.time;
    let n = spec_point_count(interval, step);
    if step > 0 && interval > step && n >= 3 {
        spec_seg_rec(a.time as int, b.time as int, a.amplitude as int, b.amplitude as int, n, q, 0, 0)
    } else {
        seq![
            AmplitudeBreakpoint { time: a.time, amplitude: a.amplitude, emphasis: None },
            AmplitudeBreakpoint { time: b.time, amplitude: b.amplitude, emphasis: None },
        ]
    }
}

/// The concatenation of the segments of all consecutive pairs from `i` on.
pub open spec fn spec_process(s: Seq<AmplitudeBreakpoint>, q: int, step: int, i: int) -> Seq<
    AmplitudeBreakpoint,
>
    decreases s.len() - i,
{
    if i < 0 || i + 1 >= s.len() {
        Seq::empty()
    } else {
        spec_segment(s[i], s[i + 1], q, step) + spec_process(s, q, step, i + 1)
    }
}

/// Samples of a segment stay within the pair's time span and amplitude
/// range, keep their order, and end exactly at the right endpoint.
proof fn lemma_seg_rec_wf(ta: int, tb: int, va: int, vb: int, n: int, q: int, k: int, cur: int)
    requires
        0 <= ta <= tb <= MAX_TIME,
        0 <= va <= SCALE,
        0 <= vb <= SCALE,
        n >= 2,
        0 <= k <= n - 1,
    ensures
        ({
            let r = spec_seg_rec(ta, tb, va, vb, n, q, k, cur);
            &&& r.len() >= 1
            &&& r[r.len() - 1] == (AmplitudeBreakpoint {
                time: tb as i64,
                amplitude: vb as i64,
                emphasis: None,
            })
            &&& forall|p: int|
                0 <= p < r.len() ==> crate::model::amp_bp_wf(#[trigger] r[p]) && r[p].emphasis
                    is None && ta <= r[p].time <= tb
            &&& forall|p: int, p2: int|
                0 <= p <= p2 < r.len() ==> #[trigger] r[p].time <= #[trigger] r[p2].time
            &&& forall|p: int|
                0 <= p < r.len() ==> spec_sample_time(ta, tb, n, k) <= #[trigger] r[p].time
        }),
    decreases n - k,
{
    let t = spec_sample_time(ta, tb, n, k);
    let a = spec_sample_amp(va, vb, n, k);
    let bin = spec_bin(a, q);
    assert(0 <= k * (tb - ta)) by (nonlinear_arith)
        requires k >= 0 && tb >= ta;
    assert(k * (tb - ta) <= (n - 1) * (tb - ta)) by (nonlinear_arith)
        requires k <= n - 1 && tb >= ta;
    assert((n - 1) * (tb - ta) == (tb - ta) * (n - 1)) by (nonlinear_arith);
    lemma_round_div_range(k * (tb - ta), n - 1, tb - ta);
    if vb >= va {
        assert(0 <= (vb - va) * k) by (nonlinear_arith)
            requires vb >= va && k >= 0;
        assert((vb - va) * k <= (vb - va) * (n - 1)) by (nonlinear_arith)
            requires vb >= va && 0 <= k <= n - 1;
        lemma_round_div_range((vb - va) * k, n - 1, vb - va);
    } else {
        assert(0 <= (va - vb) * k) by (nonlinear_arith)
            requires va >= vb && k >= 0;
        assert((va - vb) * k <= (va - vb) * (n - 1)) by (nonlinear_arith)
            requires va >= vb && 0 <= k <= n - 1;
        lemma_round_div_range((va - vb) * k, n - 1, va - vb);
    }
    if k == n - 1 {
        assert((n - 1) * (tb - ta) == (tb - ta) * (n - 1)) by (nonlinear_arith);
        lemma_round_div_exact(tb - ta, n - 1);
        assert(t == tb);
        if vb >= va {
            assert((vb - va) * (n - 1) == (n - 1) * (vb - va)) by (nonlinear_arith);
            lemma_round_div_exact(vb - va, n - 1);
        } else {
            assert((va - vb) * (n - 1) == (n - 1) * (va - vb)) by (nonlinear_arith);
            lemma_round_div_exact(va - vb, n - 1);
        }
        assert(a == vb);
        let r = spec_seg_rec(ta, tb, va, vb, n, q, k, cur);
        assert(r =~= seq![
            AmplitudeBreakpoint { time: tb as i64, amplitude: vb as i64, emphasis: None },
        ]);
    } else {
        assert(k * (tb - ta) <= (k + 1) * (tb - ta)) by (nonlinear_arith)
            requires tb >= ta && k >= 0;
        lemma_round_div_monotone(k * (tb - ta), (k + 1) * (tb - ta), n - 1);
        assert(spec_sample_time(ta, tb, n, k) <= spec_sample_time(ta, tb, n, k + 1));
        if k == 0 || bin != cur {
            lemma_seg_rec_wf(ta, tb, va, vb, n, q, k + 1, bin);
        } else {
            lemma_seg_rec_wf(ta, tb, va, vb, n, q, k + 1, cur);
        }
    }
}

/// The segment of a pair of well-formed breakpoints is itself a well-formed
/// run: it starts with the left breakpoint, ends with the right one, and
/// stays within their time span and amplitude range. Emphasis is stripped.
pub proof fn lemma_segment_wf(a: AmplitudeBreakpoint, b: AmplitudeBreakpoint, q: int, step: int)
    requires
        crate::model::amp_bp_wf(a),
        crate::model::amp_bp_wf(b),
        a.time <= b.time,
        step >= 0,
    ensures
        ({
            let r = spec_segment(a, b, q, step);
            &&& r.len() >= 2
            &&& r[0] == (AmplitudeBreakpoint {
                time: a.time,
                amplitude: a.amplitude,
                emphasis: None,
            })
            &&& r[r.len() - 1] == (AmplitudeBreakpoint {
                time: b.time,
                amplitude: b.amplitude,
                emphasis: None,
            })
            &&& forall|p: int|
                0 <= p < r.len() ==> crate::model::amp_bp_wf(#[trigger] r[p]) && r[p].emphasis
                    is None && a.time <= r[p].time <= b.time
            &&& forall|p: int, p2: int|
                0 <= p <= p2 < r.len() ==> #[trigger] r[p].time <= #[trigger] r[p2].time
        }),
{
    let interval = b.time - a.time;
    let n = spec_point_count(interval as int, step);
    if step > 0 && interval > step && n >= 3 {
        lemma_seg_rec_wf(
            a.time as int,
            b.time as int,
            a.amplitude as int,
            b.amplitude as int,
            n,
            q,
            0,
            0,
        );
        lemma_round_div_range(0, n - 1, 0);
        assert(0 * (b.time - a.time) == 0) by (nonlinear_arith);
        assert((b.amplitude - a.amplitude) * 0 == 0) by (nonlinear_arith);
        assert((a.amplitude - b.amplitude) * 0 == 0) by (nonlinear_arith);
        assert(spec_sample_time(a.time as int, b.time as int, n, 0) == a.time);
        assert(spec_sample_amp(a.amplitude as int, b.amplitude as int, n, 0) == a.amplitude);
        lemma_seg_rec_wf(
            a.time as int,
            b.time as int,
            a.amplitude as int,
            b.amplitude as int,
            n,
            q,
            1,
            spec_bin(a.amplitude as int, q),
        );
    }
}

/// The resampled envelope is well formed: it keeps the input's span and
/// order, starts at the first input breakpoint and ends exactly at the last,
/// and carries no emphasis.
pub proof fn lemma_process_wf(s: Seq<AmplitudeBreakpoint>, q: int, step: int, i: int)
    requires
        amp_envelope_wf(s),
        step >= 0,
        0 <= i,
        i + 1 < s.len(),
    ensures
        ({
            let r = spec_process(s, q, step, i);
            &&& r.len() >= 2
            &&& r[0] == (AmplitudeBreakpoint {
                time: s[i].time,
                amplitude: s[i].amplitude,
                emphasis: None,
            })
            &&& r[r.len() - 1] == (AmplitudeBreakpoint {
                time: s[s.len() - 1].time,
                amplitude: s[s.len() - 1].amplitude,
                emphasis: None,
            })
            &&& forall|p: int|
                0 <= p < r.len() ==> crate::model::amp_bp_wf(#[trigger] r[p]) && r[p].emphasis
                    is None && s[i].time <= r[p].time <= s[s.len() - 1].time
            &&& forall|p: int, p2: int|
                0 <= p <= p2 < r.len() ==> #[trigger] r[p].time <= #[trigger] r[p2].time
        }),
    decreases s.len() - i,
{
    assert(crate::model::amp_bp_wf(s[i]));
    assert(crate::model::amp_bp_wf(s[i + 1]));
    assert(s[i].time <= s[i + 1].time);
    assert(s[i + 1].time <= s[s.len() - 1].time);
    lemma_segment_wf(s[i], s[i + 1], q, step);
    let seg = spec_segment(s[i], s[i + 1], q, step);
    let rest = spec_process(s, q, step, i + 1);
    let r = spec_process(s, q, step, i);
    if i + 2 >= s.len() {
        assert(rest =~= Seq::empty());
        assert(r =~= seg);
    } else {
        lemma_process_wf(s, q, step, i + 1);
        assert forall|p: int, p2: int| 0 <= p <= p2 < r.len() implies #[trigger] r[p].time
            <= #[trigger] r[p2].time by {
            if p >= seg.len() {
                assert(r[p] == rest[p - seg.len()]);
                assert(r[p2] == rest[p2 - seg.len()]);
            } else if p2 >= seg.len() {
                assert(r[p2] == rest[p2 - seg.len()]);
                assert(r[p].time <= s[i + 1].time);
                assert(rest[0].time == s[i + 1].time);
                assert(rest[0].time <= rest[p2 - seg.len()].time);
            }
        };
    }
}

/// Resamples amplitude breakpoints.
pub struct Interpolator {
    pub parameters: InterpolationParameters,
}

impl Interpolator {
    /// Builds an interpolator with the given parameters.
    pub fn new(parameters: InterpolationParameters) -> (r: Interpolator)
        ensures
            r.parameters == parameters,
    {
        Interpolator { parameters }
    }

    /// Interpolates an array of amplitude breakpoints: each pair of
    /// consecutive breakpoints is resampled at the minimum time step, and
    /// interior samples that fall into the quantization bin of the sample
    /// kept before them are removed. The original breakpoints always stay.
    pub fn process(&self, amplitude_breakpoints: &Vec<AmplitudeBreakpoint>) -> (r: Vec<
        AmplitudeBreakpoint,
    >)
        requires
            amp_envelope_wf(amplitude_breakpoints@) || amplitude_breakpoints@.len() == 0,
            1 <= self.parameters.q_depth <= 65536,
            0 <= self.parameters.min_time_step,
        ensures
            r@ == spec_process(
                amplitude_breakpoints@,
                self.parameters.q_depth as int,
                self.parameters.min_time_step as int,
                0,
            ),
    {
        let ghost s = amplitude_breakpoints@;
        let ghost q = self.parameters.q_depth as int;
        let ghost stepg = self.parameters.min_time_step as int;
        let step = self.parameters.min_time_step;
        let qd: i64 = self.parameters.q_depth as i64;
        let mut out: Vec<AmplitudeBreakpoint> = Vec::new();
        if amplitude_breakpoints.len() < 2 {
            return out;
        }
        let mut i: usize = 0;
        while i < amplitude_breakpoints.len() - 1
            invariant
                s == amplitude_breakpoints@,
                amp_envelope_wf(s),
                s.len() >= 2,
                q == self.parameters.q_depth as int,
                stepg == self.parameters.min_time_step as int,
                step == self.parameters.min_time_step,
                qd == self.parameters.q_depth as i64,
                1 <= qd <= 65536,
                0 <= step,
                i + 1 <= s.len(),
                spec_process(s, q, stepg, 0) =~= out@ + spec_process(s, q, stepg, i as int),
            decreases s.len() - i,
        {
            let a = amplitude_breakpoints[i];
            let b = amplitude_breakpoints[i + 1];
            proof {
                assert(crate::model::amp_bp_wf(s[i as int]));
                assert(crate::model::amp_bp_wf(s[i + 1]));
                assert(s[i as int].time <= s[i + 1].time);
            }
            let interval = b.time - a.time;
            let n: i64 = if step > 0 {
                interval / step + 1
            } else {
                1
            };
            let ghost seg = spec_segment(s[i as int], s[i + 1], q, stepg);
            let mut piece: Vec<AmplitudeBreakpoint> = Vec::new();
            if step > 0 && interval > step && n >= 3 {
                let mut cur: i64 = 0;
                let mut k: i64 = 0;
                proof {
                    assert(n - 1 == interval / step);
                    assert(interval / step <= interval) by (nonlinear_arith)
                        requires step >= 1 && interval >= 0;
                }
                while k < n
                    invariant
                        0 <= a.time <= MAX_TIME,
                        0 <= b.time <= MAX_TIME,
                        a.time <= b.time,
                        0 <= a.amplitude <= SCALE,
                        0 <= b.amplitude <= SCALE,
                        1 <= qd <= 65536,
                        interval == b.time - a.time,
                        1 <= step < interval,
                        3 <= n,
                        n - 1 <= interval,
                        0 <= k <= n,
                        spec_seg_rec(
                            a.time as int,
                            b.time as int,
                            a.amplitude as int,
                            b.amplitude as int,
                            n as int,
                            qd as int,
                            0,
                            0,
                        ) =~= piece@ + spec_seg_rec(
                            a.time as int,
                            b.time as int,
                            a.amplitude as int,
                            b.amplitude as int,
                            n as int,
                            qd as int,
                            k as int,
                            cur as int,
                        ),
                    decreases n - k,
                {
                    proof {
                        assert(k * interval <= interval * interval) by (nonlinear_arith)
                            requires 0 <= k <= interval && 0 <= interval;
                        assert(interval * interval <= MAX_TIME * MAX_TIME) by (nonlinear_arith)
                            requires 0 <= interval <= MAX_TIME;
                        assert(k * interval >= 0) by (nonlinear_arith)
                            requires k >= 0 && interval >= 0;
                        assert(k * interval <= (n - 1) * interval) by (nonlinear_arith)
                            requires interval >= 0 && k <= n - 1;
                        assert((n - 1) * interval == interval * (n - 1)) by (nonlinear_arith);
                        lemma_round_div_range(k as int * interval as int, n as int - 1, interval as int);
                    }
                    let t: i64 = a.time + round_div(k * interval, n - 1);
                    let amp: i64 = if b.amplitude >= a.amplitude {
                        proof {
                            assert(0 <= (b.amplitude - a.amplitude) * k) by (nonlinear_arith)
                                requires b.amplitude >= a.amplitude && k >= 0;
                            assert((b.amplitude - a.amplitude) * k <= SCALE * MAX_TIME)
                                by (nonlinear_arith)
                                requires
                                    0 <= b.amplitude - a.amplitude <= SCALE,
                                    0 <= k <= MAX_TIME;
                            assert((b.amplitude - a.amplitude) * k <= (b.amplitude - a.amplitude)
                                * (n - 1)) by (nonlinear_arith)
                                requires 0 <= b.amplitude - a.amplitude && 0 <= k <= n - 1;
                            lemma_round_div_range(
                                (b.amplitude - a.amplitude) * k,
                                n - 1,
                                b.amplitude - a.amplitude,
                            );
                        }
                        a.amplitude + round_div((b.amplitude - a.amplitude) * k, n - 1)
                    } else {
                        proof {
                            assert(0 <= (a.amplitude - b.amplitude) * k) by (nonlinear_arith)
                                requires a.amplitude >= b.amplitude && k >= 0;
                            assert((a.amplitude - b.amplitude) * k <= SCALE * MAX_TIME)
                                by (nonlinear_arith)
                                requires
                                    0 <= a.amplitude - b.amplitude <= SCALE,
                                    0 <= k <= MAX_TIME;
                            assert((a.amplitude - b.amplitude) * k <= (a.amplitude - b.amplitude)
                                * (n - 1)) by (nonlinear_arith)
                                requires 0 <= a.amplitude - b.amplitude && 0 <= k <= n - 1;
                            lemma_round_div_range(
                                (a.amplitude - b.amplitude) * k,
                                n - 1,
                                a.amplitude - b.amplitude,
                            );
                        }
                        a.amplitude - round_div((a.amplitude - b.amplitude) * k, n - 1)
                    };
                    proof {
                        assert(0 <= amp * qd) by (nonlinear_arith)
                            requires amp >= 0 && qd >= 0;
                        assert(amp * qd <= SCALE * 65536) by (nonlinear_arith)
                            requires 0 <= amp <= SCALE && 0 <= qd <= 65536;
                    }
                    let bin: i64 = round_div(amp * qd, SCALE);
                    if k == 0 || k == n - 1 || bin != cur {
                        piece.push(AmplitudeBreakpoint { time: t, amplitude: amp, emphasis: None });
                        cur = bin;
                    }
                    k += 1;
                }
                proof {
                    assert(seg =~= piece@);
                }
            } else {
                piece.push(AmplitudeBreakpoint {
                    time: a.time,
                    amplitude: a.amplitude,
                    emphasis: None,
                });
                piece.push(AmplitudeBreakpoint {
                    time: b.time,
                    amplitude: b.amplitude,
                    emphasis: None,
                });
                proof {
                    assert(seg =~= piece@);
                }
            }
            let ghost out_before = out@;
            out.append(&mut piece);
            proof {
                assert(spec_process(s, q, stepg, i as int) =~= seg + spec_process(
                    s,
                    q,
                    stepg,
                    i + 1,
                ));
                assert(spec_process(s, q, stepg, 0) =~= out@ + spec_process(s, q, stepg, i + 1));
            }
            i += 1;
        }
        out
    }
}

} // verus!
