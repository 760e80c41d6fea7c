//! Conversion of amplitude breakpoints into a waveform: a sequence of
//! vibration cells, each with a duration in milliseconds and a constant
//! integer amplitude.

use vstd::prelude::*;
use crate::fixed::{round_div, spec_round_div, MAX_TIME, SCALE};
use crate::model::{amp_envelope_wf, AmplitudeBreakpoint};

verus! {

/// Time units per millisecond.
pub const UNITS_PER_MS: i64 = 100;

/// A vibration pattern: each entry vibrates for `timings[i]` milliseconds at
/// amplitude `amplitudes[i]`.
#[derive(PartialEq, Eq, Debug, Clone)]
pub struct Waveform {
    /// Cell durations, in milliseconds.
    pub timings: Vec<i64>,
    /// Cell amplitudes, from 0 to `WaveformConversionParameters::max_amplitude`.
    pub amplitudes: Vec<i32>,
}

/// Parameters of the breakpoint-to-waveform conversion.
pub struct WaveformConversionParameters {
    pub max_amplitude: i32,
}

/// The integer amplitude of a cell: the envelope amplitude scaled to
/// `[0, max]`, rounded to the nearest integer. For envelope amplitudes
/// within `[0, 1]` the rounded value already lies in `[0, max]`, so the
/// clamp to that range asks for nothing more.
pub open spec fn spec_cell_amplitude(amplitude: int, max: int) -> int {
    spec_round_div(amplitude * max, SCALE as int)
}

/// The cells of the waveform built from `s`, starting at pair `i` with
/// `acc` milliseconds already emitted. Each cell is `(duration_ms, amplitude)`.
///
/// A pair of breakpoints makes one cell: its duration is the time of the
/// right breakpoint minus the milliseconds emitted so far (this running
/// correction keeps rounding drift from accumulating), and its amplitude is
/// the left breakpoint's. Cells that would last 0 ms are dropped.
pub open spec fn spec_cells(s: Seq<AmplitudeBreakpoint>, i: int, acc: int, max: int) -> Seq<
    (i64, i32),
>
    decreases s.len() - i,
{
    if i < 0 || i + 1 >= s.len() {
        Seq::empty()
    } else {
        let a = s[i];
        let b = s[i + 1];
        if b.time > a.time {
            let d = spec_round_div(b.time - UNITS_PER_MS * acc, UNITS_PER_MS as int);
            if d > 0 {
                seq![
                    (d as i64, spec_cell_amplitude(a.amplitude as int, max) as i32),
                ] + spec_cells(s, i + 1, acc + d, max)
            } else {
                spec_cells(s, i + 1, acc, max)
            }
        } else {
            spec_cells(s, i + 1, acc, max)
        }
    }
}

/// The sum of a sequence of cell durations.
pub open spec fn spec_timings_sum(t: Seq<i64>) -> int
    decreases t.len(),
{
    if t.len() == 0 {
        0
    } else {
        t[0] + spec_timings_sum(t.subrange(1, t.len() as int))
    }
}

impl Waveform {
    /// Creates a waveform from amplitude breakpoints.
    ///
    /// Every cell lasts at least one millisecond, amplitudes stay within
    /// `[0, max_amplitude]`, and the total duration in milliseconds differs
    /// from the clip's true end time by less than a millisecond of rounding.
    pub fn from_breakpoints(
        breakpoints: &Vec<AmplitudeBreakpoint>,
        parameters: WaveformConversionParameters,
    ) -> (w: Waveform)
        requires
            amp_envelope_wf(breakpoints@) || breakpoints@.len() == 0,
            0 <= parameters.max_amplitude,
        ensures
            w.timings@.len() == w.amplitudes@.len(),
            ({
                let cells = spec_cells(breakpoints@, 0, 0, parameters.max_amplitude as int);
                &&& w.timings@.len() == cells.len()
                &&& forall|k: int|
                    0 <= k < cells.len() ==> #[trigger] w.timings@[k] == cells[k].0
                        && w.amplitudes@[k] == cells[k].1
            }),
            forall|k: int| 0 <= k < w.timings@.len() ==> #[trigger] w.timings@[k] > 0,
            forall|k: int|
                0 <= k < w.amplitudes@.len() ==> 0 <= #[trigger] w.amplitudes@[k]
                    <= parameters.max_amplitude,
            breakpoints@.len() >= 2 ==> UNITS_PER_MS * spec_timings_sum(w.timings@)
                <= breakpoints@[breakpoints@.len() - 1].time + UNITS_PER_MS / 2,
            breakpoints@.len() >= 2 && w.timings@.len() > 0 ==> UNITS_PER_MS * spec_timings_sum(
                w.timings@,
            ) >= breakpoints@[breakpoints@.len() - 1].time - UNITS_PER_MS / 2,
    {
        let mut timings: Vec<i64> = Vec::new();
        let mut amplitudes: Vec<i32> = Vec::new();
        let mut acc: i64 = 0;
        let max = parameters.max_amplitude;
        if breakpoints.len() < 2 {
            proof {
                assert(spec_cells(breakpoints@, 0, 0, max as int) =~= spec_zip(
                    timings@,
                    amplitudes@,
                ));
            }
            return Waveform { timings, amplitudes };
        }
        let mut i: usize = 0;
        while i < breakpoints.len() - 1
            invariant
                amp_envelope_wf(breakpoints@),
                breakpoints@.len() >= 2,
                0 <= max,
                i + 1 <= breakpoints@.len(),
                timings@.len() == amplitudes@.len(),
                0 <= acc,
                UNITS_PER_MS * acc <= breakpoints@[i as int].time + UNITS_PER_MS / 2,
                timings@.len() > 0 ==> UNITS_PER_MS * acc >= breakpoints@[i as int].time
                    - UNITS_PER_MS / 2,
                timings@.len() == 0 ==> acc == 0,
                acc == spec_timings_sum(timings@),
                spec_cells(breakpoints@, 0, 0, max as int) =~= spec_zip(timings@, amplitudes@)
                    + spec_cells(breakpoints@, i as int, acc as int, max as int),
                forall|k: int| 0 <= k < timings@.len() ==> #[trigger] timings@[k] > 0,
                forall|k: int|
                    0 <= k < amplitudes@.len() ==> 0 <= #[trigger] amplitudes@[k] <= max,
            decreases breakpoints@.len() - i,
        {
            let a = breakpoints[i];
            let b = breakpoints[i + 1];
            proof {
                assert(crate::model::amp_bp_wf(breakpoints@[i as int]));
                assert(crate::model::amp_bp_wf(breakpoints@[i + 1]));
                assert(breakpoints@[i as int].time <= breakpoints@[i + 1].time);
            }
            if b.time > a.time {
                let num: i64 = b.time - UNITS_PER_MS * acc;
                let d = round_div(num, UNITS_PER_MS);
                proof {
                    assert(UNITS_PER_MS * d <= num + UNITS_PER_MS / 2) by (nonlinear_arith)
                        requires
                            d == spec_round_div(num as int, UNITS_PER_MS as int),
                            UNITS_PER_MS == 100,
                            num >= -(MAX_TIME + 50),
                            num <= MAX_TIME;
                    assert(d > 0 ==> UNITS_PER_MS * d >= num - UNITS_PER_MS / 2)
                        by (nonlinear_arith)
                        requires
                            d == spec_round_div(num as int, UNITS_PER_MS as int),
                            UNITS_PER_MS == 100,
                            num >= -(MAX_TIME + 50),
                            num <= MAX_TIME;
                    assert(d <= 0 ==> num <= UNITS_PER_MS / 2) by (nonlinear_arith)
                        requires
                            d == spec_round_div(num as int, UNITS_PER_MS as int),
                            UNITS_PER_MS == 100,
                            num >= -(MAX_TIME + 50),
                            num <= MAX_TIME;
                }
                if d > 0 {
                    proof {
                        assert(0 <= a.amplitude * (max as i64) && a.amplitude * (max as i64)
                            <= SCALE * (max as int)) by (nonlinear_arith)
                            requires
                                0 <= a.amplitude <= SCALE,
                                0 <= max,
                        ;
                        assert(SCALE * (max as int) <= 100_000 * 0x7fff_ffff) by (nonlinear_arith)
                            requires 0 <= max <= 0x7fff_ffff && SCALE == 100_000;
                    }
                    let amp64: i64 = round_div(a.amplitude * (max as i64), SCALE);
                    proof {
                        crate::fixed::lemma_round_div_range(
                            a.amplitude as int * max as int,
                            SCALE as int,
                            max as int,
                        );
                        assert(0 <= amp64 <= max);
                    }
                    let ghost old_t = timings@;
                    let ghost old_a = amplitudes@;
                    timings.push(d);
                    amplitudes.push(amp64 as i32);
                    proof {
                        lemma_sum_push(timings@, d);
                        assert(timings@.drop_last() =~= old_t);
                        assert(spec_cells(breakpoints@, 0, 0, max as int) =~= spec_zip(
                            timings@,
                            amplitudes@,
                        ) + spec_cells(breakpoints@, i + 1, acc + d, max as int));
                    }
                    acc = acc + d;
                }
            }
            i += 1;
        }
        Waveform { timings, amplitudes }
    }
}

/// The timing and amplitude sequences of a waveform, paired up.
pub open spec fn spec_zip(t: Seq<i64>, a: Seq<i32>) -> Seq<(i64, i32)> {
    Seq::new(t.len(), |k: int| (t[k], a[k]))
}

/// Appending a cell adds its duration to the total.
proof fn lemma_sum_push(t: Seq<i64>, d: i64)
    requires
        t.len() > 0,
        t[t.len() - 1] == d,
    ensures
        spec_timings_sum(t) == spec_timings_sum(t.drop_last()) + d,
    decreases t.len(),
{
    if t.len() == 1 {
        assert(t.subrange(1, t.len() as int) =~= Seq::empty());
        assert(t.drop_last() =~= Seq::empty());
    } else {
        let sub = t.subrange(1, t.len() as int);
        lemma_sum_push(sub, d);
        assert(sub.drop_last() =~= t.drop_last().subrange(1, t.drop_last().len() as int));
    }
}

/// Creates a waveform from a list of `(duration_ms, amplitude)` cells.
pub fn create_waveform(entries: &Vec<(i64, i32)>) -> (w: Waveform)
    ensures
        w.timings@.len() == entries@.len(),
        w.amplitudes@.len() == entries@.len(),
        forall|k: int|
            0 <= k < entries@.len() ==> #[trigger] w.timings@[k] == entries@[k].0
                && w.amplitudes@[k] == entries@[k].1,
{
    let mut timings: Vec<i64> = Vec::new();
    let mut amplitudes: Vec<i32> = Vec::new();
    let mut i: usize = 0;
    while i < entries.len()
        invariant
            i <= entries@.len(),
            timings@.len() == i,
            amplitudes@.len() == i,
            forall|k: int|
                0 <= k < i ==> #[trigger] timings@[k] == entries@[k].0 && amplitudes@[k]
                    == entries@[k].1,
        decreases entries@.len() - i,
    {
        let e = entries[i];
        timings.push(e.0);
        amplitudes.push(e.1);
        i += 1;
    }
    Waveform { timings, amplitudes }
}

} // verus!
