//! Transport: playing, pausing, seeking, volume, the output device.

use vstd::prelude::*;

use crate::audio::device::classify;
use crate::audio::player::{ChainInfo, TransportStatus};
use crate::config::ReplayGain;
use crate::controller::laws::lemma_no_ids;
use crate::controller::model::{
    chain_stub, device_set, next_played, played, prev_played, relative_target, sought, toggled,
    uri_from, RESTART_AFTER_MS,
};
use crate::controller::state::{
    ctl_wf, Controller, CtlEffect, CtlEvent, CtlState, CtlView, Origin, Pending, PlayContext, Repeat,
};
use crate::text::{copy_str, same_str};

verus! {

fn stub(device: &str) -> (c: ChainInfo)
    ensures
        c@ == chain_stub(device@),
{
    let device_kind = classify(device);
    ChainInfo {
        device: copy_str(device),
        device_kind,
        format: None,
        container: None,
        volume: 100,
        bit_perfect: device_kind.is_bit_perfect(),
    }
}

fn idle_pending(replaygain: ReplayGain) -> (p: Pending)
    ensures
        p == (Pending {
            armed: None,
            loading: None,
            seek_on_start: None,
            failures: 0,
            replaygain,
        }),
{
    Pending { armed: None, loading: None, seek_on_start: None, failures: 0, replaygain }
}

impl Controller {
    /// A controller with an empty queue on a device.
    pub fn new(device: &str) -> (c: Controller)
        ensures
            ctl_wf(c@),
            c@ == (CtlView {
                status: TransportStatus::Stopped,
                queue: Seq::empty(),
                current: None,
                shuffle: false,
                repeat: Repeat::Off,
                origin: Origin::Local,
                context: PlayContext::Nowhere,
                pos_ms: 0,
                dur_ms: 0,
                chain: chain_stub(device@),
                volume: 100,
                muted: false,
                stream_title: None,
                queue_rev: 0,
                armed: None,
                loading: None,
                seek_on_start: None,
                failures: 0,
                replaygain: ReplayGain::Off,
                device_name: device@,
                next_id: 1,
                resume_at: None,
                rg_preamp: 0,
            }),
    {
        proof {
            lemma_no_ids(1);
        }
        Controller {
            state: CtlState {
                status: TransportStatus::Stopped,
                queue: Vec::new(),
                current: None,
                shuffle: false,
                repeat: Repeat::Off,
                origin: Origin::Local,
                context: PlayContext::Nowhere,
                pos_ms: 0,
                dur_ms: 0,
                chain: stub(device),
                volume: 100,
                muted: false,
                stream_title: None,
                queue_rev: 0,
            },
            pending: idle_pending(ReplayGain::Off),
            device_name: copy_str(device),
            next_id: 1,
            resume_at: None,
            rg_preamp: 0,
        }
    }

    /// Switch output device; playback continues where it was.
    pub fn set_device(&mut self, name: String) -> (effects: Vec<CtlEffect>)
        requires
            ctl_wf(old(self)@),
        ensures
            final(self)@ == device_set(old(self)@, name).ctl,
            effects@ == device_set(old(self)@, name).effects,
            ctl_wf(final(self)@),
    {
        let mut effects: Vec<CtlEffect> = Vec::new();
        if same_str(name.as_str(), self.device_name.as_str()) {
            return effects;
        }
        let resume = self.state.status != TransportStatus::Stopped;
        let pos = self.state.pos_ms;
        effects.push(CtlEffect::Stop);
        effects.push(CtlEffect::Respawn { device: name.clone() });
        effects.push(CtlEffect::SetVolume { percent: self.state.volume });
        effects.push(CtlEffect::SetMute { muted: self.state.muted });
        effects.push(CtlEffect::SetGain { db: self.rg_preamp });
        let ghost head = effects@;
        self.state.chain = stub(name.as_str());
        self.device_name = name;
        self.state.status = TransportStatus::Stopped;
        self.pending = idle_pending(self.pending.replaygain);
        assert(head + Seq::<CtlEffect>::empty() == head);
        if resume {
            let id: Option<u64> = match self.state.current_item() {
                Some(q) => Some(q.id),
                None => None,
            };
            if let Some(id) = id {
                self.pending.seek_on_start = Some((id, pos));
                self.load_current(&mut effects);
            }
        }
        effects
    }

    /// Go to the next item.
    pub fn next(&mut self) -> (effects: Vec<CtlEffect>)
        requires
            ctl_wf(old(self)@),
        ensures
            final(self)@ == next_played(old(self)@).ctl,
            effects@ == next_played(old(self)@).effects,
            old(self)@.current matches Some(i) ==> {
                &&& i + 1 < old(self)@.queue.len() ==> final(self)@.current == Some(
                    (i + 1) as usize,
                ) && effects@.len() > 0 && effects@[0] is Load && effects@[0]->Load_uri == old(
                    self,
                )@.queue[i + 1].info.uri
                &&& i + 1 == old(self)@.queue.len() && old(self)@.repeat == Repeat::All
                    ==> final(self)@.current == Some(0usize)
                &&& i + 1 == old(self)@.queue.len() && old(self)@.repeat != Repeat::All
                    ==> final(self)@ == old(self)@ && effects@.len() == 0
            },
            ctl_wf(final(self)@),
    {
        let n = self.state.queue.len();
        let target: Option<usize> = match self.state.current {
            Some(i) => if i + 1 < n {
                Some(i + 1)
            } else if self.state.repeat == Repeat::All && n > 0 {
                Some(0)
            } else {
                None
            },
            None => if n > 0 {
                Some(0)
            } else {
                None
            },
        };
        match target {
            Some(i) => self.play_index(i),
            None => Vec::new(),
        }
    }

    /// Go to the previous item, or back to the start of the current one.
    pub fn prev(&mut self) -> (effects: Vec<CtlEffect>)
        requires
            ctl_wf(old(self)@),
        ensures
            final(self)@ == prev_played(old(self)@).ctl,
            effects@ == prev_played(old(self)@).effects,
            old(self)@.current matches Some(i) ==> {
                &&& i > 0 && old(self)@.pos_ms <= 3000 ==> final(self)@.current == Some(
                    (i - 1) as usize,
                ) && effects@.len() > 0 && effects@[0] is Load && effects@[0]->Load_uri == old(
                    self,
                )@.queue[i - 1].info.uri
                &&& old(self)@.pos_ms > 3000 ==> final(self)@.current == Some(i)
                &&& old(self)@.pos_ms > 3000 && old(self)@.status != TransportStatus::Stopped
                    ==> effects@.len() > 0 && effects@[0] == (CtlEffect::Seek { ms: 0 })
            },
            ctl_wf(final(self)@),
    {
        let n = self.state.queue.len();
        let target: Option<usize> = match self.state.current {
            Some(i) => if i > 0 {
                Some(i - 1)
            } else if self.state.repeat == Repeat::All && n > 0 {
                Some(n - 1)
            } else {
                None
            },
            None => None,
        };
        match target {
            Some(i) => if self.state.pos_ms <= RESTART_AFTER_MS {
                self.play_index(i)
            } else {
                self.seek_ms(0)
            },
            None => self.seek_ms(0),
        }
    }

    /// Pause or play.
    pub fn toggle(&mut self) -> (effects: Vec<CtlEffect>)
        requires
            ctl_wf(old(self)@),
        ensures
            final(self)@ == toggled(old(self)@).ctl,
            effects@ == toggled(old(self)@).effects,
            ctl_wf(final(self)@),
    {
        match self.state.status {
            TransportStatus::Playing => self.pause(),
            TransportStatus::Paused => self.resume(),
            TransportStatus::Stopped => self.play(),
        }
    }

    /// Play from the current state: resume, restart the current item, or
    /// start the queue.
    pub fn play(&mut self) -> (effects: Vec<CtlEffect>)
        requires
            ctl_wf(old(self)@),
        ensures
            final(self)@ == played(old(self)@).ctl,
            effects@ == played(old(self)@).effects,
            ctl_wf(final(self)@),
    {
        let mut effects: Vec<CtlEffect> = Vec::new();
        match self.state.status {
            TransportStatus::Paused => {
                return self.resume();
            },
            TransportStatus::Playing => {
                return effects;
            },
            TransportStatus::Stopped => {},
        }
        if self.state.queue.len() == 0 {
            return effects;
        }
        if self.state.current.is_none() {
            self.state.current = Some(0);
        }
        let waiting = self.resume_at.take();
        if let Some(pos) = waiting {
            let id: Option<u64> = match self.state.current_item() {
                Some(q) => Some(q.id),
                None => None,
            };
            if let Some(id) = id {
                self.pending.seek_on_start = Some((id, pos));
            }
        }
        self.load_current(&mut effects);
        assert(effects@ == played(old(self)@).effects);
        effects
    }

    pub fn pause(&self) -> (effects: Vec<CtlEffect>)
        ensures
            effects@ == seq![CtlEffect::Pause],
    {
        let mut effects: Vec<CtlEffect> = Vec::new();
        effects.push(CtlEffect::Pause);
        assert(effects@ == seq![CtlEffect::Pause]);
        effects
    }

    pub fn resume(&self) -> (effects: Vec<CtlEffect>)
        ensures
            effects@ == seq![CtlEffect::Resume],
    {
        let mut effects: Vec<CtlEffect> = Vec::new();
        effects.push(CtlEffect::Resume);
        assert(effects@ == seq![CtlEffect::Resume]);
        effects
    }

    pub fn stop(&mut self) -> (effects: Vec<CtlEffect>)
        requires
            ctl_wf(old(self)@),
        ensures
            final(self)@ == (CtlView { pos_ms: 0, ..old(self)@ }),
            effects@ == seq![CtlEffect::Stop],
            ctl_wf(final(self)@),
    {
        let mut effects: Vec<CtlEffect> = Vec::new();
        effects.push(CtlEffect::Stop);
        self.state.pos_ms = 0;
        assert(effects@ == seq![CtlEffect::Stop]);
        effects
    }

    /// Seek in the current item. That of a restored session is remembered for
    /// the first play.
    pub fn seek_ms(&mut self, ms: u64) -> (effects: Vec<CtlEffect>)
        requires
            ctl_wf(old(self)@),
        ensures
            final(self)@ == sought(old(self)@, ms).ctl,
            effects@ == sought(old(self)@, ms).effects,
            ctl_wf(final(self)@),
    {
        let mut effects: Vec<CtlEffect> = Vec::new();
        if self.state.status == TransportStatus::Stopped {
            if self.resume_at.is_some() {
                self.resume_at = Some(ms);
                self.state.pos_ms = ms;
            }
            return effects;
        }
        effects.push(CtlEffect::Seek { ms });
        self.state.pos_ms = ms;
        effects.push(CtlEffect::Publish(CtlEvent::Seeked(ms)));
        assert(effects@ == sought(old(self)@, ms).effects);
        effects
    }

    /// Seek by some time; not before the start, and at most to half a second
    /// before the end where that is known.
    pub fn seek_relative(&mut self, delta_ms: i64) -> (effects: Vec<CtlEffect>)
        requires
            ctl_wf(old(self)@),
            old(self)@.dur_ms <= i64::MAX,
            old(self)@.pos_ms + delta_ms <= i64::MAX,
            old(self)@.pos_ms <= i64::MAX,
        ensures
            ({
                let t = relative_target(
                    old(self)@.pos_ms as int,
                    old(self)@.dur_ms as int,
                    delta_ms as int,
                );
                final(self)@ == sought(old(self)@, t as u64).ctl && effects@ == sought(
                    old(self)@,
                    t as u64,
                ).effects
            }),
            ctl_wf(final(self)@),
    {
        let pos: i64 = self.state.pos_ms as i64;
        let dur: i64 = self.state.dur_ms as i64;
        let sum: i64 = pos + delta_ms;
        let target: i64 = if sum < 0 {
            0
        } else {
            sum
        };
        let target: i64 = if dur > 0 && target > dur - 500 {
            dur - 500
        } else {
            target
        };
        let target: i64 = if target < 0 {
            0
        } else {
            target
        };
        self.seek_ms(target as u64)
    }

    pub fn set_volume(&mut self, percent: u32) -> (effects: Vec<CtlEffect>)
        requires
            ctl_wf(old(self)@),
        ensures
            ({
                let p = if percent <= 100 {
                    percent
                } else {
                    100
                };
                final(self)@ == (CtlView { volume: p, ..old(self)@ }) && effects@ == seq![
                    CtlEffect::SetVolume { percent: p },
                    CtlEffect::Publish(CtlEvent::VolumeChanged),
                ]
            }),
            ctl_wf(final(self)@),
    {
        let p: u32 = if percent <= 100 {
            percent
        } else {
            100
        };
        self.state.volume = p;
        let mut effects: Vec<CtlEffect> = Vec::new();
        effects.push(CtlEffect::SetVolume { percent: p });
        effects.push(CtlEffect::Publish(CtlEvent::VolumeChanged));
        assert(effects@ == seq![
            CtlEffect::SetVolume { percent: p },
            CtlEffect::Publish(CtlEvent::VolumeChanged),
        ]);
        effects
    }

    pub fn set_muted(&mut self, muted: bool) -> (effects: Vec<CtlEffect>)
        requires
            ctl_wf(old(self)@),
        ensures
            final(self)@ == (CtlView { muted, ..old(self)@ }),
            effects@ == seq![
                CtlEffect::SetMute { muted },
                CtlEffect::Publish(CtlEvent::VolumeChanged),
            ],
            ctl_wf(final(self)@),
    {
        self.state.muted = muted;
        let mut effects: Vec<CtlEffect> = Vec::new();
        effects.push(CtlEffect::SetMute { muted });
        effects.push(CtlEffect::Publish(CtlEvent::VolumeChanged));
        assert(effects@ == seq![
            CtlEffect::SetMute { muted },
            CtlEffect::Publish(CtlEvent::VolumeChanged),
        ]);
        effects
    }

    /// ReplayGain mode and preamp (`f32` bits); applies from the next loaded
    /// track.
    pub fn set_replaygain(&mut self, mode: ReplayGain, preamp_db: u32) -> (effects: Vec<CtlEffect>)
        requires
            ctl_wf(old(self)@),
        ensures
            ({
                let pre = if mode == ReplayGain::Off {
                    0
                } else {
                    preamp_db
                };
                final(self)@ == (CtlView { replaygain: mode, rg_preamp: pre, ..old(self)@ })
                    && effects@ == seq![CtlEffect::SetGain { db: pre }]
            }),
            ctl_wf(final(self)@),
    {
        let pre: u32 = if mode == ReplayGain::Off {
            0
        } else {
            preamp_db
        };
        self.pending.replaygain = mode;
        self.rg_preamp = pre;
        let mut effects: Vec<CtlEffect> = Vec::new();
        effects.push(CtlEffect::SetGain { db: pre });
        assert(effects@ == seq![CtlEffect::SetGain { db: pre }]);
        effects
    }

    /// The cover hint of the first queued item with a URI.
    pub fn cover_hint(&self, uri: &str) -> (r: Option<String>)
        ensures
            r == (match uri_from(self@.queue, uri@, 0) {
                Some(i) => self@.queue[i as int].info.cover,
                None => None,
            }),
    {
        let n = self.state.queue.len();
        for i in 0..n
            invariant
                n == self@.queue.len(),
                uri_from(self@.queue, uri@, 0)
                    == uri_from(self@.queue, uri@, i as int),
        {
            if same_str(self.state.queue[i].info.uri.as_str(), uri) {
                return match &self.state.queue[i].info.cover {
                    Some(c) => Some(c.clone()),
                    None => None,
                };
            }
        }
        None
    }
}

} // verus!
