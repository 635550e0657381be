//! The settings of the gain stage: software volume, preamp and per-track
//! ReplayGain. Decibels and peaks are carried as the bit patterns of `f32`
//! values; what they come to as a factor is computed where samples are scaled.

use vstd::prelude::*;

verus! {

/// Per-track options given with a track to play.
#[derive(Debug, Clone, Copy, PartialEq, Eq, Structural)]
pub struct TrackOpts {
    /// ReplayGain (or any per-track) adjustment in dB (`f32` bits).
    pub gain_db: Option<u32>,
    /// Linear sample peak of the track, 1.0 being full scale (`f32` bits).
    pub peak: Option<u32>,
}

/// No adjustment.
pub open spec fn no_opts() -> TrackOpts {
    TrackOpts { gain_db: None, peak: None }
}

impl Default for TrackOpts {
    fn default() -> (r: TrackOpts)
        ensures
            r == no_opts(),
    {
        TrackOpts { gain_db: None, peak: None }
    }
}

#[derive(Debug, Clone, Copy, PartialEq, Eq, Structural)]
pub struct GainStage {
    /// Software volume, 0..=100.
    pub volume: u32,
    /// Global preamp in dB, added to the track gain (`f32` bits).
    pub preamp_db: u32,
    pub track: TrackOpts,
    pub muted: bool,
}

/// Full volume, no adjustment: samples stay as they are.
pub open spec fn unity_stage() -> GainStage {
    GainStage { volume: 100, preamp_db: 0, track: no_opts(), muted: false }
}

impl Default for GainStage {
    fn default() -> (r: GainStage)
        ensures
            r == unity_stage(),
    {
        GainStage {
            volume: 100,
            preamp_db: 0,
            track: TrackOpts { gain_db: None, peak: None },
            muted: false,
        }
    }
}

/// Whether the bits of an `f32` are those of a finite number: its exponent is
/// not all ones.
pub open spec fn finite_bits(bits: u32) -> bool {
    (bits as int / 0x80_0000) % 256 != 255
}

/// The preamp for a requested gain; what is not finite counts as none.
pub open spec fn preamp_bits(db: u32) -> u32 {
    if finite_bits(db) {
        db
    } else {
        0
    }
}

impl GainStage {
    pub fn set_volume(&mut self, percent: u32)
        ensures
            *final(self) == (GainStage {
                volume: if percent <= 100 {
                    percent
                } else {
                    100
                },
                ..*old(self)
            }),
    {
        self.volume = if percent <= 100 {
            percent
        } else {
            100
        };
    }

    pub fn set_preamp(&mut self, db: u32)
        ensures
            *final(self) == (GainStage { preamp_db: preamp_bits(db), ..*old(self) }),
    {
        self.preamp_db = if (db / 0x80_0000) % 256 != 255 {
            db
        } else {
            0
        };
    }
}

} // verus!
