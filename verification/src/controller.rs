//! The controller facade: one entry point that loads clips and forwards
//! playback operations to whichever backend it was built with.

use vstd::prelude::*;
use crate::error::Error;
use crate::fixed::{CLIP_TIME_LIMIT, SCALE};
use crate::loader::{latest_from_json, VersionSupport};
use crate::model;
use crate::model::clip_playable;

verus! {

/// Plays back a pre-authored haptic clip. The streaming and waveform
/// workers outside this crate implement it, as does the null player.
pub trait PreAuthoredClipPlayback {
    /// Loads the clip and prepares it for playback.
    fn load(&mut self, data_model: model::DataModel) -> Result<(), Error>
        requires
            clip_playable(data_model),
    ;

    /// Unloads the clip, freeing whatever `load` took.
    fn unload(&mut self) -> Result<(), Error>;

    /// Plays the loaded clip; playing an already playing clip changes
    /// nothing.
    fn play(&mut self) -> Result<(), Error>;

    /// Seeks to the position given in time units from the beginning of the
    /// clip; a negative position delays the start of playback.
    fn seek(&mut self, seek_offset: i64) -> Result<(), Error>;

    /// Sets playback to repeat from the beginning at the end of the clip.
    fn set_looping(&mut self, enabled: bool) -> Result<(), Error>;

    /// Stops a playing clip; stopping a stopped clip changes nothing.
    fn stop(&mut self) -> Result<(), Error>;

    /// Multiplies the amplitude of everything played by the given
    /// non-negative fixed-point factor, clipping hard at full scale.
    fn set_amplitude_multiplication(&mut self, multiplication_factor: i64) -> Result<(), Error>
        requires
            multiplication_factor >= 0,
    ;

    /// Adds the given fixed-point shift, between minus one and one, to every
    /// frequency played, clipping hard at the range ends.
    fn set_frequency_shift(&mut self, shift: i64) -> Result<(), Error>
        requires
            -SCALE <= shift <= SCALE,
    ;
}

/// Plays pre-authored clips through the backend it owns.
pub struct HapticsController<P: PreAuthoredClipPlayback> {
    /// The backend all playback is delegated to.
    pub pre_authored_clip_player: P,
    /// Duration of the loaded clip, in time units: the time of its last
    /// amplitude breakpoint.
    pub clip_duration: i64,
    /// Whether a clip is currently loaded. The facade checks this before
    /// forwarding any playback operation, so the backend never sees one
    /// without a clip.
    pub clip_loaded: bool,
}

impl<P: PreAuthoredClipPlayback> HapticsController<P> {
    /// A controller around the given backend, with no clip loaded.
    pub fn new(pre_authored_clip_player: P) -> (c: HapticsController<P>)
        ensures
            c.clip_duration == 0,
            !c.clip_loaded,
    {
        HapticsController { pre_authored_clip_player, clip_duration: 0, clip_loaded: false }
    }

    /// Loads a clip from its JSON text: the previous clip is unloaded, the
    /// text is parsed, validated and upgraded, the clip duration is set from
    /// the last amplitude breakpoint, and the backend receives the clip.
    pub fn load(&mut self, data: &str) -> (r: Result<VersionSupport, Error>)
        ensures
            r is Ok ==> 0 <= final(self).clip_duration <= CLIP_TIME_LIMIT,
            final(self).clip_loaded == r is Ok,
    {
        self.clip_loaded = false;
        match self.pre_authored_clip_player.unload() {
            Ok(_) => {},
            Err(e) => {
                return Err(e);
            },
        }
        let (version_support, haptic_data) = match latest_from_json(data) {
            Ok(p) => p,
            Err(message) => {
                return Err(Error::new(message.as_str()));
            },
        };
        let amps = &haptic_data.signals.continuous.envelopes.amplitude;
        proof {
            assert(crate::model::amp_bp_wf(amps@[amps@.len() - 1]));
        }
        self.clip_duration = if amps.len() > 0 {
            amps[amps.len() - 1].time
        } else {
            0
        };
        match self.pre_authored_clip_player.load(haptic_data) {
            Ok(_) => {
                self.clip_loaded = true;
                Ok(version_support)
            },
            Err(e) => Err(e),
        }
    }

    /// Plays back the clip previously loaded with `load`. Fails when no clip
    /// is loaded, before the backend is reached.
    pub fn play(&mut self) -> (r: Result<(), Error>)
        ensures
            !old(self).clip_loaded ==> r is Err && *final(self) == *old(self),
            final(self).clip_loaded == old(self).clip_loaded,
            final(self).clip_duration == old(self).clip_duration,
    {
        if !self.clip_loaded {
            return Err(Error::new("Player play: no clip loaded"));
        }
        self.pre_authored_clip_player.play()
    }

    /// Stops playing back the clip previously started with `play`. Stopping
    /// when no clip is loaded changes nothing.
    pub fn stop(&mut self) -> (r: Result<(), Error>)
        ensures
            !old(self).clip_loaded ==> r is Ok && *final(self) == *old(self),
            final(self).clip_loaded == old(self).clip_loaded,
            final(self).clip_duration == old(self).clip_duration,
    {
        if !self.clip_loaded {
            return Ok(());
        }
        self.pre_authored_clip_player.stop()
    }

    /// Seeks to the position given in time units. Fails when no clip is
    /// loaded, before the backend is reached.
    pub fn seek(&mut self, time: i64) -> (r: Result<(), Error>)
        ensures
            !old(self).clip_loaded ==> r is Err && *final(self) == *old(self),
            final(self).clip_loaded == old(self).clip_loaded,
            final(self).clip_duration == old(self).clip_duration,
    {
        if !self.clip_loaded {
            return Err(Error::new("Player seek: no clip loaded"));
        }
        self.pre_authored_clip_player.seek(time)
    }

    /// Sets playback to repeat from the start at the end of the clip. Fails
    /// when no clip is loaded, before the backend is reached.
    pub fn set_looping(&mut self, enabled: bool) -> (r: Result<(), Error>)
        ensures
            !old(self).clip_loaded ==> r is Err && *final(self) == *old(self),
            final(self).clip_loaded == old(self).clip_loaded,
            final(self).clip_duration == old(self).clip_duration,
    {
        if !self.clip_loaded {
            return Err(Error::new("Player set_looping: no clip loaded"));
        }
        self.pre_authored_clip_player.set_looping(enabled)
    }

    /// The duration of the loaded clip, in time units.
    pub fn get_clip_duration(&self) -> (r: i64)
        ensures
            r == self.clip_duration,
    {
        self.clip_duration
    }

    /// Sets the amplitude multiplication of the loaded clip. The factor must
    /// be zero or greater, and a clip must be loaded; anything else is
    /// rejected here, before it reaches the backend.
    pub fn set_amplitude_multiplication(&mut self, multiplication_factor: i64) -> (r: Result<(),
        Error>)
        ensures
            multiplication_factor < 0 || !old(self).clip_loaded ==> r is Err,
            final(self).clip_loaded == old(self).clip_loaded,
            final(self).clip_duration == old(self).clip_duration,
    {
        if multiplication_factor < 0 {
            return Err(
                Error::new("Unable to apply amplitude multiplication factor, needs to be 0 or greater"),
            );
        }
        if !self.clip_loaded {
            return Err(Error::new("Player set_amplitude_multiplication: no clip loaded"));
        }
        self.pre_authored_clip_player.set_amplitude_multiplication(multiplication_factor)
    }

    /// Sets the frequency shift of the loaded clip. The shift must lie
    /// between minus one and one in fixed-point units, and a clip must be
    /// loaded; anything else is rejected here, before it reaches the backend.
    pub fn set_frequency_shift(&mut self, shift: i64) -> (r: Result<(), Error>)
        ensures
            shift < -SCALE || shift > SCALE || !old(self).clip_loaded ==> r is Err,
            final(self).clip_loaded == old(self).clip_loaded,
            final(self).clip_duration == old(self).clip_duration,
    {
        if shift < -SCALE || shift > SCALE {
            return Err(Error::new("Unable to apply frequency shift, needs to be between -1 and 1"));
        }
        if !self.clip_loaded {
            return Err(Error::new("Player set_frequency_shift: no clip loaded"));
        }
        self.pre_authored_clip_player.set_frequency_shift(shift)
    }
}

} // verus!
