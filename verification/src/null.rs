//! A backend that plays nothing: it only remembers whether a clip is
//! loaded, for tests and hosts without a vibration engine.

use vstd::prelude::*;
use crate::controller::PreAuthoredClipPlayback;
use crate::error::Error;
use crate::model;

verus! {

/// The do-nothing backend.
pub struct Player {
    pub haptic_clip: Option<model::DataModel>,
}

impl Player {
    /// A player with no clip loaded.
    pub fn new() -> (r: Result<Player, Error>)
        ensures
            match r {
                Ok(p) => p.haptic_clip is None,
                Err(_) => false,
            },
    {
        Ok(Player { haptic_clip: None })
    }
}

impl PreAuthoredClipPlayback for Player {
    fn load(&mut self, data_model: model::DataModel) -> Result<(), Error> {
        self.haptic_clip = Some(data_model);
        Ok(())
    }

    fn play(&mut self) -> Result<(), Error> {
        match &self.haptic_clip {
            Some(_) => Ok(()),
            None => Err(Error::new("Player play: no clip loaded")),
        }
    }

    fn stop(&mut self) -> Result<(), Error> {
        match &self.haptic_clip {
            Some(_) => Ok(()),
            None => Err(Error::new("Player stop: no clip loaded")),
        }
    }

    fn unload(&mut self) -> Result<(), Error> {
        self.haptic_clip = None;
        Ok(())
    }

    fn seek(&mut self, _seek_time: i64) -> Result<(), Error> {
        match &self.haptic_clip {
            Some(_) => Ok(()),
            None => Err(Error::new("Player seek: no clip loaded")),
        }
    }

    fn set_amplitude_multiplication(&mut self, _multiplication_factor: i64) -> Result<(), Error> {
        match &self.haptic_clip {
            Some(_) => Ok(()),
            None => Err(Error::new("Player set_amplitude_multiplication: no clip loaded")),
        }
    }

    fn set_frequency_shift(&mut self, _shift: i64) -> Result<(), Error> {
        match &self.haptic_clip {
            Some(_) => Ok(()),
            None => Err(Error::new("Player set_frequency_shift: no clip loaded")),
        }
    }

    fn set_looping(&mut self, _enabled: bool) -> Result<(), Error> {
        match &self.haptic_clip {
            Some(_) => Ok(()),
            None => Err(Error::new("Player set_looping: no clip loaded")),
        }
    }
}

} // verus!
