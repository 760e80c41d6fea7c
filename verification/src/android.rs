//! The decision core of the waveform backend: for engines that take a whole
//! `(timings, amplitudes)` buffer and a loop flag. A worker loop outside this
//! crate receives commands and calls into this state machine; the returned
//! buffers are what it hands to the host callbacks.

use vstd::prelude::*;
use crate::emphasis::{emphasize, spec_emphasize, EmphasisParameters};
use crate::fixed::{CLIP_TIME_LIMIT, SCALE};
use crate::interpolation::{spec_process, InterpolationParameters, Interpolator};
use crate::model::{
    clip_playable, first_amp_at_or_after, spec_truncated_amp, AmplitudeBreakpoint, DataModel,
};
use crate::waveform::{spec_cells, Waveform, WaveformConversionParameters};

verus! {

/// The integer amplitude range of the engine this backend drives.
pub const WAVEFORM_MAX_AMPLITUDE: i32 = 255;

/// The near-zero ducking amplitude used when rendering emphasis: about
/// 1.1/255, small but not zero, because a fully stopped motor wakes up late
/// and would wreck the timings.
pub const WAVEFORM_DUCKING_AMPLITUDE: i64 = 431;

/// The minimum time step used when interpolating for this backend: 25
/// milliseconds; below that the engine cannot be felt to interpolate.
pub const WAVEFORM_MIN_TIME_STEP: i64 = 2500;

/// A command sent from the controller to the waveform worker. Frequency
/// shifting has no equivalent on this backend and is rejected before a
/// command is made.
pub enum WaveformCommand {
    Load(DataModel),
    Unload,
    Play,
    Stop,
    Seek { seek_time: i64 },
    SetAmplitudeMultiplication { multiplication_factor: i64 },
    Loop { enabled: bool },
    Quit,
}

/// The vibration cells that this backend's conversion pipeline produces
/// from an amplitude envelope: emphasis rendered with the backend's region
/// lengths and ducking amplitude, the result resampled at the backend's
/// time step and amplitude depth, and consecutive breakpoints paired into
/// cells at the engine's amplitude range.
pub open spec fn spec_clip_cells(amps: Seq<AmplitudeBreakpoint>) -> Seq<(i64, i32)> {
    let emphd = spec_emphasize(
        amps,
        EmphasisParameters {
            ducking_before_length: 3000,
            emphasis_length: 3000,
            ducking_after_length: 3000,
            ducking_amplitude: WAVEFORM_DUCKING_AMPLITUDE,
        },
        amps.len() as int,
    );
    let interp = spec_process(emphd, 256, WAVEFORM_MIN_TIME_STEP as int, 0);
    spec_cells(interp, 0, 0, WAVEFORM_MAX_AMPLITUDE as int)
}

/// Converts a clip to a waveform: emphasis is rendered into the amplitude
/// envelope, the envelope is resampled at the backend's time step, and the
/// pairs of breakpoints become vibration cells. No cell lasts 0 ms and every
/// amplitude is within the engine's range.
pub fn convert_clip_to_waveform(clip: &DataModel) -> (w: Waveform)
    requires
        clip_playable(*clip),
    ensures
        ({
            let cells = spec_clip_cells(clip.signals.continuous.envelopes.amplitude@);
            &&& w.timings@.len() == cells.len()
            &&& forall|k: int|
                0 <= k < cells.len() ==> #[trigger] w.timings@[k] == cells[k].0
                    && w.amplitudes@[k] == cells[k].1
        }),
        w.timings@.len() == w.amplitudes@.len(),
        forall|k: int| 0 <= k < w.timings@.len() ==> #[trigger] w.timings@[k] > 0,
        forall|k: int|
            0 <= k < w.amplitudes@.len() ==> 0 <= #[trigger] w.amplitudes@[k]
                <= WAVEFORM_MAX_AMPLITUDE,
        crate::waveform::UNITS_PER_MS * crate::waveform::spec_timings_sum(w.timings@)
            <= crate::model::clip_duration(*clip) + 6000 + crate::waveform::UNITS_PER_MS / 2,
{
    let amplitude_breakpoints = &clip.signals.continuous.envelopes.amplitude;
    proof {
        assert(crate::model::amp_bp_wf(
            clip.signals.continuous.envelopes.amplitude@[clip.signals.continuous.envelopes.amplitude@.len()
                - 1],
        ));
    }
    let emphasized = emphasize(
        amplitude_breakpoints,
        EmphasisParameters {
            ducking_amplitude: WAVEFORM_DUCKING_AMPLITUDE,
            ducking_before_length: 3000,
            emphasis_length: 3000,
            ducking_after_length: 3000,
        },
    );
    let interpolator = Interpolator::new(InterpolationParameters::new(8, WAVEFORM_MIN_TIME_STEP));
    proof {
        assert(interpolator.parameters.q_depth == 256) by {
            reveal_with_fuel(crate::interpolation::spec_pow2, 9);
        }
    }
    let interpolated = interpolator.process(&emphasized);
    proof {
        if emphasized@.len() >= 2 {
            crate::interpolation::lemma_process_wf(
                emphasized@,
                interpolator.parameters.q_depth as int,
                interpolator.parameters.min_time_step as int,
                0,
            );
        }
    }
    let w = Waveform::from_breakpoints(
        &interpolated,
        WaveformConversionParameters { max_amplitude: WAVEFORM_MAX_AMPLITUDE },
    );
    proof {
        if interpolated@.len() >= 2 {
            assert(interpolated@[interpolated@.len() - 1].time
                == emphasized@[emphasized@.len() - 1].time);
        } else {
            assert(w.timings@.len() == 0);
            assert(crate::waveform::spec_timings_sum(w.timings@) == 0);
        }
    }
    w
}

/// A waveform amplitude scaled by the multiplication factor, kept within the
/// engine's range. A negative factor leaves the amplitude unchanged.
pub open spec fn spec_wave_mul(a: int, m: int) -> int {
    if m < 0 {
        a
    } else {
        let scaled = (a * m) / (SCALE as int);
        if scaled > WAVEFORM_MAX_AMPLITUDE {
            WAVEFORM_MAX_AMPLITUDE as int
        } else {
            scaled
        }
    }
}

/// Scales every amplitude of a waveform by the multiplication factor,
/// clamping into the engine's range; the timings stay as they are.
pub fn apply_amplitude_multiplication(
    waveform: &Waveform,
    amplitude_multiplication_factor: i64,
) -> (r: Waveform)
    requires
        forall|k: int|
            0 <= k < waveform.amplitudes@.len() ==> 0 <= #[trigger] waveform.amplitudes@[k]
                <= WAVEFORM_MAX_AMPLITUDE,
    ensures
        r.timings@ == waveform.timings@,
        r.amplitudes@.len() == waveform.amplitudes@.len(),
        forall|k: int|
            0 <= k < r.amplitudes@.len() ==> #[trigger] r.amplitudes@[k] == spec_wave_mul(
                waveform.amplitudes@[k] as int,
                amplitude_multiplication_factor as int,
            ),
        forall|k: int|
            0 <= k < r.amplitudes@.len() ==> 0 <= #[trigger] r.amplitudes@[k]
                <= WAVEFORM_MAX_AMPLITUDE,
{
    let mut timings: Vec<i64> = Vec::new();
    let mut i: usize = 0;
    while i < waveform.timings.len()
        invariant
            i <= waveform.timings@.len(),
            timings@ == waveform.timings@.take(i as int),
        decreases waveform.timings@.len() - i,
    {
        timings.push(waveform.timings[i]);
        proof {
            assert(timings@ =~= waveform.timings@.take(i + 1));
        }
        i += 1;
    }
    proof {
        assert(timings@ =~= waveform.timings@);
    }
    let m = amplitude_multiplication_factor;
    let mut amplitudes: Vec<i32> = Vec::new();
    let mut i: usize = 0;
    while i < waveform.amplitudes.len()
        invariant
            i <= waveform.amplitudes@.len(),
            amplitudes@.len() == i,
            forall|k: int|
                0 <= k < waveform.amplitudes@.len() ==> 0 <= #[trigger] waveform.amplitudes@[k]
                    <= WAVEFORM_MAX_AMPLITUDE,
            m == amplitude_multiplication_factor,
            forall|k: int|
                0 <= k < i ==> #[trigger] amplitudes@[k] == spec_wave_mul(
                    waveform.amplitudes@[k] as int,
                    m as int,
                ),
            forall|k: int|
                0 <= k < i ==> 0 <= #[trigger] amplitudes@[k] <= WAVEFORM_MAX_AMPLITUDE,
        decreases waveform.amplitudes@.len() - i,
    {
        let a = waveform.amplitudes[i];
        if m < 0 {
            amplitudes.push(a);
        } else {
            proof {
                assert(0 <= (a as int) * (m as int) && (a as int) * (m as int) <= 255
                    * 0x7fff_ffff_ffff_ffff) by (nonlinear_arith)
                    requires 0 <= a <= 255 && 0 <= m <= 0x7fff_ffff_ffff_ffff;
            }
            let p: i128 = (a as i128) * (m as i128);
            let scaled: i128 = p / (SCALE as i128);
            proof {
                assert(scaled == ((a as int) * (m as int)) / (SCALE as int));
                assert(0 <= scaled) by (nonlinear_arith)
                    requires scaled == (p as int) / (SCALE as int) && p >= 0 && SCALE == 100_000;
            }
            if scaled > WAVEFORM_MAX_AMPLITUDE as i128 {
                amplitudes.push(WAVEFORM_MAX_AMPLITUDE);
            } else {
                amplitudes.push(scaled as i32);
            }
        }
        i += 1;
    }
    Waveform { timings, amplitudes }
}

/// What the worker should call on the host after a command was handled.
pub enum HostAction {
    /// Call the host's load callback with this buffer and loop flag.
    LoadClip(Waveform, bool),
    UnloadClip,
    PlayClip,
    StopClip,
    /// Call the host's seek callback with this buffer (empty when the seek
    /// target lies past the clip: play nothing rather than fail).
    SeekClip(Waveform),
    Nothing,
}

/// The waveform backend's state: the clip and waveform as loaded, before
/// any seeking or amplitude scaling.
pub struct WaveformPlayerState {
    pub original_clip: Option<DataModel>,
    pub original_waveform: Option<Waveform>,
    pub amplitude_multiplication_factor: i64,
    pub is_looping_enabled: bool,
}

/// The backend invariant: clip and waveform go together, the clip is
/// playable, and the waveform is within the engine's range.
pub open spec fn spec_wplayer_wf(s: WaveformPlayerState) -> bool {
    &&& match s.original_clip {
        Some(c) => clip_playable(c) && s.original_waveform is Some,
        None => s.original_waveform is None,
    }
    &&& match s.original_waveform {
        Some(w) => {
            &&& w.timings@.len() == w.amplitudes@.len()
            &&& forall|k: int|
                0 <= k < w.amplitudes@.len() ==> 0 <= #[trigger] w.amplitudes@[k]
                    <= WAVEFORM_MAX_AMPLITUDE
        },
        None => true,
    }
}

impl WaveformPlayerState {
    /// A backend with nothing loaded.
    pub fn new() -> (s: WaveformPlayerState)
        ensures
            s.original_clip is None,
            s.original_waveform is None,
            spec_wplayer_wf(s),
    {
        WaveformPlayerState {
            original_clip: None,
            original_waveform: None,
            amplitude_multiplication_factor: SCALE,
            is_looping_enabled: false,
        }
    }

    /// Loads a clip: modulation and looping reset, and the host receives the
    /// freshly converted waveform.
    pub fn on_load(&mut self, data: DataModel) -> (r: HostAction)
        requires
            spec_wplayer_wf(*old(self)),
            clip_playable(data),
        ensures
            spec_wplayer_wf(*final(self)),
            final(self).amplitude_multiplication_factor == SCALE,
            !final(self).is_looping_enabled,
            final(self).original_clip is Some,
            ({
                let fw = final(self).original_waveform;
                match r {
                    HostAction::LoadClip(w, looping) => !looping && match fw {
                        Some(ow) => w.timings@ == ow.timings@ && w.amplitudes@ == ow.amplitudes@,
                        None => false,
                    },
                    _ => false,
                }
            }),
    {
        self.amplitude_multiplication_factor = SCALE;
        self.is_looping_enabled = false;
        let waveform = convert_clip_to_waveform(&data);
        let out = duplicate_waveform(&waveform);
        self.original_clip = Some(data);
        self.original_waveform = Some(waveform);
        HostAction::LoadClip(out, self.is_looping_enabled)
    }

    /// Unloads the clip.
    pub fn on_unload(&mut self) -> (r: HostAction)
        ensures
            spec_wplayer_wf(*final(self)),
            final(self).original_clip is None,
            final(self).original_waveform is None,
            r is UnloadClip,
    {
        self.original_clip = None;
        self.original_waveform = None;
        HostAction::UnloadClip
    }

    /// Starts playback on the host.
    pub fn on_play(&self) -> (r: HostAction)
        ensures
            r is PlayClip,
    {
        HostAction::PlayClip
    }

    /// Stops playback on the host.
    pub fn on_stop(&self) -> (r: HostAction)
        ensures
            r is StopClip,
    {
        HostAction::StopClip
    }

    /// Seeks: when not looping, the clip is truncated at the (non-negative)
    /// target, converted again, scaled by the current multiplication, and
    /// handed to the host; a target past the clip plays nothing. While
    /// looping, seeking has no effect on this backend.
    pub fn on_seek(&self, seek_time: i64) -> (r: HostAction)
        requires
            spec_wplayer_wf(*self),
        ensures
            self.is_looping_enabled || self.original_clip is None ==> r is Nothing,
            !self.is_looping_enabled && self.original_clip is Some ==> r is SeekClip,
            !self.is_looping_enabled && self.original_clip is Some ==> match r {
                HostAction::SeekClip(w) => {
                    // the clip truncated at the clamped seek time, converted
                    // and scaled by the current multiplication factor; an
                    // empty buffer when no breakpoint lies at or after it
                    let amps =
                        self.original_clip->Some_0.signals.continuous.envelopes.amplitude@;
                    let t: int = if seek_time < 0 {
                        0
                    } else if seek_time > CLIP_TIME_LIMIT {
                        CLIP_TIME_LIMIT as int
                    } else {
                        seek_time as int
                    };
                    if first_amp_at_or_after(amps, t) < amps.len() {
                        let cells = spec_clip_cells(spec_truncated_amp(amps, t));
                        &&& w.timings@.len() == cells.len()
                        &&& w.amplitudes@.len() == cells.len()
                        &&& forall|k: int|
                            0 <= k < cells.len() ==> #[trigger] w.timings@[k] == cells[k].0
                                && w.amplitudes@[k] == spec_wave_mul(
                                cells[k].1 as int,
                                self.amplitude_multiplication_factor as int,
                            )
                    } else {
                        w.timings@.len() == 0 && w.amplitudes@.len() == 0
                    }
                },
                _ => false,
            },
    {
        if self.is_looping_enabled {
            return HostAction::Nothing;
        }
        let t = if seek_time < 0 {
            0
        } else if seek_time > CLIP_TIME_LIMIT {
            CLIP_TIME_LIMIT
        } else {
            seek_time
        };
        match &self.original_clip {
            None => HostAction::Nothing,
            Some(clip) => {
                let mut truncated = clip.duplicate();
                proof {
                    assert(clip_playable(truncated)) by {
                        assert(truncated.signals.continuous.envelopes.amplitude@
                            == clip.signals.continuous.envelopes.amplitude@);
                    }
                }
                let ghost before = truncated;
                let result = truncated.truncate_before(t);
                match result {
                    Ok(_) => {
                        proof {
                            let olds = clip.signals.continuous.envelopes.amplitude@;
                            assert(before.signals.continuous.envelopes.amplitude@ == olds);
                            assert(first_amp_at_or_after(olds, t as int) < olds.len());
                            assert(truncated.signals.continuous.envelopes.amplitude@
                                == spec_truncated_amp(olds, t as int));
                            crate::model::lemma_truncated_amp_last(olds, t as int);
                            assert(crate::model::amp_bp_wf(olds[olds.len() - 1]));
                        }
                        let waveform = convert_clip_to_waveform(&truncated);
                        let scaled = apply_amplitude_multiplication(
                            &waveform,
                            self.amplitude_multiplication_factor,
                        );
                        HostAction::SeekClip(scaled)
                    },
                    Err(_) => {
                        proof {
                            let olds = clip.signals.continuous.envelopes.amplitude@;
                            assert(before.signals.continuous.envelopes.amplitude@ == olds);
                            assert(!(first_amp_at_or_after(olds, t as int) < olds.len()));
                        }
                        HostAction::SeekClip(
                            Waveform { timings: Vec::new(), amplitudes: Vec::new() },
                        )
                    },
                }
            },
        }
    }

    /// Applies an amplitude multiplication: the loaded waveform, scaled, is
    /// reloaded on the host with the current loop flag. No clip, no effect.
    pub fn on_set_amplitude_multiplication(&mut self, multiplication_factor: i64) -> (r:
        HostAction)
        requires
            spec_wplayer_wf(*old(self)),
        ensures
            spec_wplayer_wf(*final(self)),
            final(self).original_clip == old(self).original_clip,
            final(self).original_waveform == old(self).original_waveform,
            final(self).is_looping_enabled == old(self).is_looping_enabled,
            match old(self).original_waveform {
                Some(w) => {
                    &&& final(self).amplitude_multiplication_factor == multiplication_factor
                    &&& match r {
                        HostAction::LoadClip(out, looping) => {
                            &&& looping == old(self).is_looping_enabled
                            &&& out.timings@ == w.timings@
                            &&& out.amplitudes@.len() == w.amplitudes@.len()
                            &&& forall|k: int|
                                0 <= k < out.amplitudes@.len() ==> #[trigger] out.amplitudes@[k]
                                    == spec_wave_mul(
                                    w.amplitudes@[k] as int,
                                    multiplication_factor as int,
                                )
                        },
                        _ => false,
                    }
                },
                None => r is Nothing && *final(self) == *old(self),
            },
    {
        match &self.original_waveform {
            Some(original_waveform) => {
                self.amplitude_multiplication_factor = multiplication_factor;
                let scaled = apply_amplitude_multiplication(
                    original_waveform,
                    multiplication_factor,
                );
                HostAction::LoadClip(scaled, self.is_looping_enabled)
            },
            None => HostAction::Nothing,
        }
    }

    /// Toggles looping: the loaded waveform is reloaded on the host with the
    /// new flag.
    pub fn on_loop(&mut self, enabled: bool) -> (r: HostAction)
        requires
            spec_wplayer_wf(*old(self)),
        ensures
            spec_wplayer_wf(*final(self)),
            final(self).is_looping_enabled == enabled,
            final(self).original_clip == old(self).original_clip,
            final(self).original_waveform == old(self).original_waveform,
            match old(self).original_waveform {
                Some(w) => match r {
                    HostAction::LoadClip(out, looping) => looping == enabled && out.timings@
                        == w.timings@ && out.amplitudes@ == w.amplitudes@,
                    _ => false,
                },
                None => r is Nothing,
            },
    {
        self.is_looping_enabled = enabled;
        match &self.original_waveform {
            Some(original_waveform) => {
                let out = duplicate_waveform(original_waveform);
                HostAction::LoadClip(out, self.is_looping_enabled)
            },
            None => HostAction::Nothing,
        }
    }
}

/// Copies a waveform.
fn duplicate_waveform(w: &Waveform) -> (r: Waveform)
    ensures
        r.timings@ == w.timings@,
        r.amplitudes@ == w.amplitudes@,
{
    let mut timings: Vec<i64> = Vec::new();
    let mut i: usize = 0;
    while i < w.timings.len()
        invariant
            i <= w.timings@.len(),
            timings@ == w.timings@.take(i as int),
        decreases w.timings@.len() - i,
    {
        timings.push(w.timings[i]);
        proof {
            assert(timings@ =~= w.timings@.take(i + 1));
        }
        i += 1;
    }
    let mut amplitudes: Vec<i32> = Vec::new();
    let mut j: usize = 0;
    while j < w.amplitudes.len()
        invariant
            j <= w.amplitudes@.len(),
            amplitudes@ == w.amplitudes@.take(j as int),
        decreases w.amplitudes@.len() - j,
    {
        amplitudes.push(w.amplitudes[j]);
        proof {
            assert(amplitudes@ =~= w.amplitudes@.take(j + 1));
        }
        j += 1;
    }
    proof {
        assert(timings@ =~= w.timings@);
        assert(amplitudes@ =~= w.amplitudes@);
    }
    Waveform { timings, amplitudes }
}

} // verus!
