//! The decision core of the streaming scheduler: a worker loop outside this
//! crate receives commands, keeps the wall clock, and calls into this state
//! machine, which owns the event provider, decides every state change, and
//! hands back the events to deliver.

use vstd::prelude::*;
use crate::fixed::{MAX_TIME, SCALE};
use crate::model::{clip_wf, DataModel};
use crate::provider::{
    spec_amp_pos_for_seek, spec_event_time, spec_freq_pos_for_seek, spec_peek_event,
    spec_state_wf, Event, HapticEventProvider, ProviderView,
};

verus! {

/// How long the worker sleeps, in time units, when no event is pending.
pub const DEFAULT_TIME_TO_SLEEP: i64 = 1_000_000_000;

/// Latest wall-clock instant, in units, that the scheduler arithmetic
/// accepts (about 1200 years of uptime).
pub const WALL_BOUND: i64 = 4_000_000_000_000_000;

/// A command sent from the controller to the streaming worker.
pub enum PlayerCommand {
    Load(DataModel),
    Unload,
    Play,
    Stop,
    Seek { seek_time: i64 },
    SetAmplitudeMultiplication { multiplication_factor: i64 },
    SetFrequencyShift { shift: i64 },
    Loop { enabled: bool },
    Quit,
}

/// The provider state that a seek to `t` leaves behind.
pub open spec fn spec_provider_after_seek(v: ProviderView, t: int) -> ProviderView {
    ProviderView {
        amp_pos: spec_amp_pos_for_seek(v.amps, v.amp_pos, t),
        freq_pos: spec_freq_pos_for_seek(
            v.freqs,
            spec_amp_pos_for_seek(v.amps, v.amp_pos, t),
            t,
        ),
        ..v
    }
}

/// Drives one `HapticEventProvider` against the wall clock.
pub struct EventSender {
    /// The loaded clip's provider, if any clip is loaded.
    pub event_provider: Option<HapticEventProvider>,
    /// The wall-clock instant at which time 0 of the clip is (or will be)
    /// reached; present exactly while the clip is playing.
    pub start_time: Option<i64>,
    /// A pre-delay recorded by a negative seek while stopped, applied by the
    /// next play command.
    pub play_delay: Option<i64>,
    pub looping_enabled: bool,
}

/// The state machine invariant.
pub open spec fn spec_sender_wf(s: EventSender) -> bool {
    &&& match s.event_provider {
        Some(p) => spec_state_wf(p@),
        None => true,
    }
    &&& s.event_provider is None ==> s.start_time is None
    &&& match s.play_delay {
        Some(d) => 0 <= d <= MAX_TIME,
        None => true,
    }
    &&& match s.start_time {
        Some(st) => -2 * MAX_TIME <= st <= WALL_BOUND + 2 * MAX_TIME,
        None => true,
    }
}

/// Clamps a seek offset into the range the fixed-point clock covers.
fn clamp_seek_time(t: i64) -> (r: i64)
    ensures
        r == spec_clamped_seek(t as int),
{
    if t > MAX_TIME {
        MAX_TIME
    } else if t < -MAX_TIME {
        -MAX_TIME
    } else {
        t
    }
}

/// A seek offset clamped into `[-MAX_TIME, MAX_TIME]`.
pub open spec fn spec_clamped_seek(t: int) -> int {
    if t > MAX_TIME {
        MAX_TIME as int
    } else if t < -MAX_TIME {
        -(MAX_TIME as int)
    } else {
        t
    }
}

impl EventSender {
    /// A sender with nothing loaded.
    pub fn new() -> (s: EventSender)
        ensures
            s.event_provider is None,
            s.start_time is None,
            s.play_delay is None,
            !s.looping_enabled,
            spec_sender_wf(s),
    {
        EventSender {
            event_provider: None,
            start_time: None,
            play_delay: None,
            looping_enabled: false,
        }
    }

    /// Moves the provider back to the clip start and forgets the start time.
    fn rewind(&mut self)
        requires
            spec_sender_wf(*old(self)),
        ensures
            spec_sender_wf(*final(self)),
            final(self).start_time is None,
            final(self).play_delay == old(self).play_delay,
            final(self).looping_enabled == old(self).looping_enabled,
            match (old(self).event_provider, final(self).event_provider) {
                (Some(p0), Some(p1)) => p1@ == spec_provider_after_seek(p0@, 0),
                (None, None) => true,
                _ => false,
            },
    {
        match &mut self.event_provider {
            Some(event_provider) => {
                event_provider.seek(0);
            },
            None => {},
        }
        self.start_time = None;
    }

    /// Switches looping on or off.
    pub fn set_looping_enabled(&mut self, enabled: bool)
        ensures
            *final(self) == (EventSender { looping_enabled: enabled, ..*old(self) }),
    {
        self.looping_enabled = enabled;
    }

    /// The position of the playhead: time units since the beginning of the
    /// clip, negative while a pre-delay is still running. `None` when not
    /// playing.
    pub fn playhead_time(&self, now: i64) -> (r: Option<i64>)
        requires
            spec_sender_wf(*self),
            0 <= now <= WALL_BOUND,
        ensures
            r == (match self.start_time {
                Some(st) => Some((now - st) as i64),
                None => None::<i64>,
            }),
    {
        match self.start_time {
            Some(start_time) => Some(now - start_time),
            None => None,
        }
    }

    /// How long the worker may sleep: the time until the next event is due,
    /// or the idle timeout when nothing is pending or playing.
    pub fn time_to_next_event(&self, now: i64) -> (r: i64)
        requires
            spec_sender_wf(*self),
            0 <= now <= WALL_BOUND,
        ensures
            r >= 0,
            ({
                let due = match (self.start_time, self.event_provider) {
                    (Some(st), Some(p)) => match spec_peek_event(p@).0 {
                        Some(e) => Some(spec_event_time(e) - (now - st)),
                        None => None::<int>,
                    },
                    _ => None::<int>,
                };
                match due {
                    Some(d) => r == (if d >= 0 {
                        d
                    } else {
                        0
                    }),
                    None => r == DEFAULT_TIME_TO_SLEEP,
                }
            }),
    {
        match self.start_time {
            Some(start_time) => {
                match &self.event_provider {
                    Some(event_provider) => {
                        match event_provider.peek_event_start_time() {
                            Some(next_event_time) => {
                                let playhead = now - start_time;
                                proof {
                                    crate::provider::lemma_peek_event_time_bounds(
                                        event_provider@,
                                    );
                                }
                                if next_event_time >= playhead {
                                    next_event_time - playhead
                                } else {
                                    0
                                }
                            },
                            None => DEFAULT_TIME_TO_SLEEP,
                        }
                    },
                    None => DEFAULT_TIME_TO_SLEEP,
                }
            },
            None => DEFAULT_TIME_TO_SLEEP,
        }
    }

    /// Takes the next event from the provider, to be delivered by the
    /// worker. When the provider runs out: with looping on, playback
    /// restarts at the clip start anchored at `now`; otherwise the sender
    /// rewinds and stops.
    pub fn send_next_event(&mut self, now: i64) -> (r: Option<Event>)
        requires
            spec_sender_wf(*old(self)),
            0 <= now <= WALL_BOUND,
        ensures
            spec_sender_wf(*final(self)),
            final(self).looping_enabled == old(self).looping_enabled,
            final(self).play_delay == old(self).play_delay,
            old(self).event_provider is None ==> *final(self) == *old(self) && r is None,
            r == (match old(self).event_provider {
                Some(p) => spec_peek_event(p@).0,
                None => None::<Event>,
            }),
            match (old(self).event_provider, final(self).event_provider) {
                (Some(p0), Some(p1)) => {
                    // the provider advanced by the returned event
                    let pv = ProviderView {
                        amp_pos: spec_peek_event(p0@).1,
                        freq_pos: spec_peek_event(p0@).2,
                        ..p0@
                    };
                    if spec_peek_event(p0@).0 is Some && spec_peek_event(pv).0 is None {
                        // the returned event emptied the provider: looping
                        // restarts at the clip start now, else the sender
                        // rewinds and stops
                        &&& p1@ == spec_provider_after_seek(pv, 0)
                        &&& final(self).start_time == (if old(self).looping_enabled {
                            Some(now)
                        } else {
                            None::<i64>
                        })
                    } else {
                        &&& p1@ == pv
                        &&& final(self).start_time == old(self).start_time
                    }
                },
                (None, None) => true,
                _ => false,
            },
    {
        match &mut self.event_provider {
            Some(event_provider) => {
                let ev = event_provider.get_next_event();
                match ev {
                    Some(_) => {
                        match event_provider.peek_event_start_time() {
                            None => {
                                if self.looping_enabled {
                                    event_provider.seek(0);
                                    self.start_time = Some(now);
                                } else {
                                    self.rewind();
                                }
                            },
                            Some(_) => {},
                        }
                    },
                    None => {},
                }
                ev
            },
            None => None,
        }
    }

    /// Stops playback: the provider produces one final ramp of the
    /// amplitude down to zero, which is returned for immediate delivery,
    /// and the sender rewinds. Does nothing when no clip is loaded or none
    /// is playing, so stopping twice stops once.
    pub fn stop(&mut self, now: i64) -> (r: Option<Event>)
        requires
            spec_sender_wf(*old(self)),
            0 <= now <= WALL_BOUND,
        ensures
            spec_sender_wf(*final(self)),
            final(self).start_time is None || old(self).start_time is None,
            old(self).event_provider is None || old(self).start_time is None ==> r is None
                && *final(self) == *old(self),
            old(self).event_provider is Some && old(self).start_time is Some ==> {
                &&& final(self).start_time is None
                &&& match r {
                    Some(Event::Amplitude(a)) => a.amplitude == 0 && a.duration == 0,
                    _ => false,
                }
            },
    {
        let playing = match (&self.event_provider, &self.start_time) {
            (Some(_), Some(_)) => true,
            _ => false,
        };
        if !playing {
            return None;
        }
        let r = match &mut self.event_provider {
            Some(event_provider) => {
                event_provider.stop();
                proof {
                    crate::provider::lemma_peek_amp_wf(
                        event_provider@.amps,
                        event_provider@.amp_pos,
                    );
                }
                event_provider.get_next_event()
            },
            None => None,
        };
        self.rewind();
        proof {
            let p0 = old(self).event_provider->Some_0@;
            assert(0 * p0.amp_mul == 0) by (nonlinear_arith);
            assert(crate::fixed::spec_round_div(0, SCALE as int) == 0) by (nonlinear_arith)
                requires SCALE == 100_000;
        }
        r
    }

    /// Seeks to `seek_time`. While playing, the start time moves so that the
    /// playhead equals the (clamped) target; a seek to a negative time with
    /// playback under way delivers an immediate ramp to zero first, and the
    /// remaining events then fire only after the pre-delay has passed. While
    /// stopped, a negative target is recorded as the delay for the next play
    /// command. A target past the clip leaves at most the closing ramp.
    pub fn seek(&mut self, seek_time: i64, now: i64) -> (r: Option<Event>)
        requires
            spec_sender_wf(*old(self)),
            0 <= now <= WALL_BOUND,
        ensures
            spec_sender_wf(*final(self)),
            final(self).looping_enabled == old(self).looping_enabled,
            old(self).event_provider is None ==> *final(self) == *old(self) && r is None,
            ({
                let t = spec_clamped_seek(seek_time as int);
                let tp = if t >= 0 { t } else { 0 };
                match old(self).event_provider {
                    None => true,
                    Some(p0) => {
                        let sought = spec_provider_after_seek(p0@, tp);
                        match final(self).event_provider {
                            None => false,
                            Some(p1) => {
                                if spec_peek_event(sought).0 is Some {
                                    &&& p1@ == sought
                                    &&& match old(self).start_time {
                                        Some(st) => {
                                            &&& final(self).start_time == Some(
                                                (if t >= 0 { now - t } else { now + (-t) }) as i64,
                                            )
                                            &&& final(self).play_delay == old(self).play_delay
                                            &&& r == (if t < 0 && now > st {
                                                Some(
                                                    Event::Amplitude(
                                                        crate::provider::AmplitudeEvent {
                                                            time: 0,
                                                            duration: 0,
                                                            amplitude: 0,
                                                            emphasis: None,
                                                        },
                                                    ),
                                                )
                                            } else {
                                                None::<Event>
                                            })
                                        },
                                        None => {
                                            &&& final(self).start_time is None
                                            &&& final(self).play_delay == (if t < 0 {
                                                Some((-t) as i64)
                                            } else {
                                                None::<i64>
                                            })
                                            &&& r is None
                                        },
                                    }
                                } else {
                                    &&& p1@ == spec_provider_after_seek(sought, 0)
                                    &&& final(self).start_time is None
                                    &&& final(self).play_delay == (if t < 0 {
                                        Some((-t) as i64)
                                    } else {
                                        None::<i64>
                                    })
                                    &&& r is None
                                }
                            },
                        }
                    },
                }
            }),
    {
        let t = clamp_seek_time(seek_time);
        let has_next: bool;
        match &mut self.event_provider {
            Some(event_provider) => {
                event_provider.seek(t);
                has_next = event_provider.peek_event_start_time().is_some();
            },
            None => {
                return None;
            },
        }
        if has_next {
            match self.start_time {
                Some(start_time) => {
                    let emission: Option<Event> = if t < 0 && now > start_time {
                        Some(Event::immediate_stop_event())
                    } else {
                        None
                    };
                    let new_start: i64 = if t >= 0 {
                        now - t
                    } else {
                        now + (-t)
                    };
                    self.start_time = Some(new_start);
                    emission
                },
                None => {
                    self.play_delay = if t < 0 {
                        Some(-t)
                    } else {
                        None
                    };
                    None
                },
            }
        } else {
            self.rewind();
            self.play_delay = if t < 0 {
                Some(-t)
            } else {
                None
            };
            None
        }
    }

    /// Starts playback. If the clip is already playing nothing changes; a
    /// pending pre-delay from a negative seek is consumed so that the first
    /// event fires that much later.
    pub fn play(&mut self, now: i64)
        requires
            spec_sender_wf(*old(self)),
            0 <= now <= WALL_BOUND,
        ensures
            spec_sender_wf(*final(self)),
            old(self).event_provider is None ==> *final(self) == *old(self),
            old(self).event_provider is Some && old(self).start_time is Some ==> *final(self)
                == *old(self),
            old(self).event_provider is Some && old(self).start_time is None ==> {
                &&& final(self).event_provider == old(self).event_provider
                &&& final(self).looping_enabled == old(self).looping_enabled
                &&& match spec_peek_event(old(self).event_provider->Some_0@).0 {
                    Some(e) => {
                        let delay: int = match old(self).play_delay {
                            Some(d) => d as int,
                            None => 0,
                        };
                        final(self).start_time == Some(
                            (now - spec_event_time(e) + delay) as i64,
                        ) && final(self).play_delay is None
                    },
                    None => final(self).start_time == Some(now) && final(self).play_delay
                        == old(self).play_delay,
                }
            },
    {
        match &self.event_provider {
            None => {},
            Some(event_provider) => {
                if self.start_time.is_none() {
                    proof {
                        crate::provider::lemma_peek_event_time_bounds(event_provider@);
                    }
                    match event_provider.peek_event_start_time() {
                        Some(next_event_time) => {
                            let play_delay: i64 = match self.play_delay {
                                Some(d) => d,
                                None => 0,
                            };
                            self.play_delay = None;
                            self.start_time = Some(now - next_event_time + play_delay);
                        },
                        None => {
                            self.start_time = Some(now);
                        },
                    }
                }
            },
        }
    }

    /// Loads a clip: current playback stops (delivering its final ramp to
    /// zero), and the new clip stands ready at its beginning, not playing.
    pub fn load(&mut self, data: DataModel, now: i64) -> (r: Option<Event>)
        requires
            spec_sender_wf(*old(self)),
            clip_wf(data),
            0 <= now <= WALL_BOUND,
        ensures
            spec_sender_wf(*final(self)),
            final(self).start_time is None,
            match final(self).event_provider {
                Some(p) => {
                    &&& p@.amps == data.signals.continuous.envelopes.amplitude@
                    &&& p@.amp_mul == SCALE
                    &&& p@.freq_shift == 0
                },
                None => false,
            },
            old(self).event_provider is Some && old(self).start_time is Some ==> match r {
                Some(Event::Amplitude(a)) => a.amplitude == 0 && a.duration == 0,
                _ => false,
            },
            old(self).event_provider is None || old(self).start_time is None ==> r is None,
    {
        let r = self.stop(now);
        self.event_provider = Some(HapticEventProvider::new(data));
        r
    }

    /// Unloads the clip: playback stops (delivering its final ramp to zero)
    /// and the provider is dropped.
    pub fn unload(&mut self, now: i64) -> (r: Option<Event>)
        requires
            spec_sender_wf(*old(self)),
            0 <= now <= WALL_BOUND,
        ensures
            spec_sender_wf(*final(self)),
            final(self).event_provider is None,
            final(self).start_time is None,
            old(self).event_provider is Some && old(self).start_time is Some ==> match r {
                Some(Event::Amplitude(a)) => a.amplitude == 0 && a.duration == 0,
                _ => false,
            },
            old(self).event_provider is None || old(self).start_time is None ==> r is None,
    {
        let r = self.stop(now);
        self.event_provider = None;
        self.start_time = None;
        r
    }

    /// Sets the amplitude multiplication and, while playing, seeks to the
    /// current playhead so that a freshly modulated event fires right away
    /// rather than at the next breakpoint.
    pub fn set_amplitude_multiplication(&mut self, multiplication_factor: i64, now: i64) -> (r:
        Option<Event>)
        requires
            spec_sender_wf(*old(self)),
            0 <= now <= WALL_BOUND,
        ensures
            spec_sender_wf(*final(self)),
            old(self).event_provider is None ==> *final(self) == *old(self) && r is None,
            match final(self).event_provider {
                Some(p) => old(self).event_provider is Some && p@.amp_mul
                    == multiplication_factor,
                None => old(self).event_provider is None,
            },
    {
        match &mut self.event_provider {
            None => None,
            Some(event_provider) => {
                event_provider.set_amplitude_multiplication(multiplication_factor);
                match self.start_time {
                    Some(start_time) => {
                        let playhead = now - start_time;
                        self.seek(playhead, now)
                    },
                    None => None,
                }
            },
        }
    }

    /// Sets the frequency shift and, while playing, seeks to the current
    /// playhead so that a freshly shifted event fires right away.
    pub fn set_frequency_shift(&mut self, shift: i64, now: i64) -> (r: Option<Event>)
        requires
            spec_sender_wf(*old(self)),
            -SCALE <= shift <= SCALE,
            0 <= now <= WALL_BOUND,
        ensures
            spec_sender_wf(*final(self)),
            old(self).event_provider is None ==> *final(self) == *old(self) && r is None,
            match final(self).event_provider {
                Some(p) => old(self).event_provider is Some && p@.freq_shift == shift,
                None => old(self).event_provider is None,
            },
    {
        match &mut self.event_provider {
            None => None,
            Some(event_provider) => {
                event_provider.set_frequency_shift(shift);
                match self.start_time {
                    Some(start_time) => {
                        let playhead = now - start_time;
                        self.seek(playhead, now)
                    },
                    None => None,
                }
            },
        }
    }
}

} // verus!
