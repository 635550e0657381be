//! What the engine reports, mirrored into the controller: the gapless
//! successor is kept armed, plays are counted, the session is saved.

use vstd::prelude::*;

use crate::audio::fmt::PcmFormat;
use crate::audio::player::TransportStatus;
use crate::controller::model::{
    beginning, error_reported, item_at, started_index, status_reported, track_started, uri_from,
    MAX_FAILURES,
};
use crate::controller::queue::find_id;
use crate::controller::state::{
    ctl_wf, Controller, CtlEffect, CtlEvent, CtlView, QueueItem, TrackInfo,
};
use crate::text::same_str;

verus! {

fn find_uri(q: &Vec<QueueItem>, uri: &str) -> (r: Option<usize>)
    ensures
        r == uri_from(q@, uri@, 0),
        r matches Some(i) ==> i < q@.len(),
{
    let n = q.len();
    for i in 0..n
        invariant
            n == q@.len(),
            uri_from(q@, uri@, 0) == uri_from(q@, uri@, i as int),
    {
        if same_str(q[i].info.uri.as_str(), uri) {
            return Some(i);
        }
    }
    None
}

impl Controller {
    fn find_started(&self, uri: &str) -> (r: Option<usize>)
        requires
            ctl_wf(self@),
        ensures
            r == started_index(self@, uri@),
            r matches Some(i) ==> i < self@.queue.len(),
    {
        if let Some(a) = &self.pending.armed {
            if same_str(a.1.as_str(), uri) {
                let r = find_id(&self.state.queue, a.0);
                if r.is_some() {
                    return r;
                }
            }
        }
        if let Some(q) = self.state.current_item() {
            if same_str(q.info.uri.as_str(), uri) {
                return self.state.current;
            }
        }
        find_uri(&self.state.queue, uri)
    }

    fn mark_beginning(&mut self, uri: &str, format: Option<PcmFormat>)
        requires
            ctl_wf(old(self)@),
        ensures
            final(self)@ == beginning(old(self)@, uri@, format),
            ctl_wf(final(self)@),
    {
        let idx = self.find_started(uri);
        self.pending.loading = None;
        self.pending.failures = 0;
        self.pending.armed = None;
        self.pending.seek_on_start = None;
        if idx.is_some() {
            self.state.current = idx;
        }
        if format.is_some() {
            self.state.chain.format = format;
        }
        self.state.pos_ms = 0;
        self.state.stream_title = None;
        let dur: u64 = match self.state.current_item() {
            Some(q) => q.info.duration_ms,
            None => 0,
        };
        self.state.dur_ms = dur;
    }

    /// A track has started.
    pub fn on_track_started(&mut self, uri: &str, format: Option<PcmFormat>) -> (effects: Vec<
        CtlEffect,
    >)
        requires
            ctl_wf(old(self)@),
        ensures
            final(self)@ == track_started(old(self)@, uri@, format).ctl,
            effects@ == track_started(old(self)@, uri@, format).effects,
            ctl_wf(final(self)@),
    {
        let ghost v = self@;
        let seek = self.pending.seek_on_start;
        self.mark_beginning(uri, format);
        let ghost w = self@;
        let mut effects: Vec<CtlEffect> = Vec::new();
        let started: Option<u64> = match self.state.current_item() {
            Some(q) => Some(q.id),
            None => None,
        };
        if let (Some((id, pos)), Some(sid)) = (seek, started) {
            if id == sid && pos > 0 {
                effects.push(CtlEffect::Seek { ms: pos });
            }
        }
        effects.push(CtlEffect::Publish(CtlEvent::TrackChanged));
        let ghost head = effects@;
        self.rearm(&mut effects);
        proof {
            let seeking = match (v.seek_on_start, item_at(w)) {
                (Some((id, pos)), Some(it)) => if id == it.id && pos > 0 {
                    seq![CtlEffect::Seek { ms: pos }]
                } else {
                    Seq::empty()
                },
                _ => Seq::empty(),
            };
            assert(head == seeking + seq![CtlEffect::Publish(CtlEvent::TrackChanged)]);
            assert(effects@ == track_started(v, uri@, format).effects);
        }
        effects
    }

    /// The engine's status has changed.
    pub fn on_status(&mut self, status: TransportStatus) -> (effects: Vec<CtlEffect>)
        requires
            ctl_wf(old(self)@),
        ensures
            final(self)@ == status_reported(old(self)@, status).ctl,
            effects@ == status_reported(old(self)@, status).effects,
            ctl_wf(final(self)@),
    {
        let mut effects: Vec<CtlEffect> = Vec::new();
        if self.state.status == status {
            return effects;
        }
        self.state.status = status;
        effects.push(CtlEffect::Publish(CtlEvent::StatusChanged(status)));
        assert(effects@ == seq![CtlEffect::Publish(CtlEvent::StatusChanged(status))]);
        if status == TransportStatus::Stopped {
            self.state.pos_ms = 0;
            self.pending.armed = None;
        } else {
            self.rearm(&mut effects);
        }
        effects
    }

    /// The engine has reported an error.
    pub fn on_error(&mut self, message: String) -> (effects: Vec<CtlEffect>)
        requires
            ctl_wf(old(self)@),
        ensures
            final(self)@ == error_reported(old(self)@, message).ctl,
            effects@ == error_reported(old(self)@, message).effects,
            ctl_wf(final(self)@),
    {
        let mut effects: Vec<CtlEffect> = Vec::new();
        effects.push(CtlEffect::Publish(CtlEvent::Error(message)));
        assert(effects@ == seq![CtlEffect::Publish(CtlEvent::Error(message))]);
        let failed = self.pending.loading.take();
        if failed.is_some() && self.pending.failures < MAX_FAILURES {
            self.pending.failures = self.pending.failures + 1;
            let n = self.state.queue.len();
            if let Some(i) = self.state.current {
                if i + 1 < n {
                    self.state.current = Some(i + 1);
                    self.load_current(&mut effects);
                }
            }
        }
        effects
    }

    /// An internet radio has announced a title.
    pub fn on_stream_title(&mut self, title: String) -> (effects: Vec<CtlEffect>)
        requires
            ctl_wf(old(self)@),
        ensures
            final(self)@ == (CtlView { stream_title: Some(title), ..old(self)@ }),
            effects@ == seq![CtlEffect::Publish(CtlEvent::StreamTitle(title))],
            ctl_wf(final(self)@),
    {
        self.state.stream_title = Some(title.clone());
        let mut effects: Vec<CtlEffect> = Vec::new();
        effects.push(CtlEffect::Publish(CtlEvent::StreamTitle(title)));
        assert(effects@ == seq![CtlEffect::Publish(CtlEvent::StreamTitle(title))]);
        effects
    }

    /// What a saved session is compared by: it changes with the queue, and
    /// every five seconds of playback.
    pub fn save_mark(&self) -> (r: u64)
        ensures
            r == self@.queue_rev ^ (self@.pos_ms / 5000),
    {
        self.state.queue_rev ^ (self.state.pos_ms / 5000)
    }
}

/// How often it is asked whether the session has changed.
pub const SAVE_EVERY_MS: u64 = 10_000;

/// When the session was last looked at, and the mark it was last saved with.
#[derive(Debug, Clone, Copy, PartialEq, Eq, Structural)]
pub struct SaveClock {
    pub last_ms: u64,
    pub saved: u64,
}

impl SaveClock {
    pub fn new(clock_ms: u64) -> (s: SaveClock)
        ensures
            s == (SaveClock { last_ms: clock_ms, saved: u64::MAX }),
    {
        SaveClock { last_ms: clock_ms, saved: u64::MAX }
    }

    /// Whether the session is to be saved: it is time to look, and what it is
    /// compared by has changed.
    pub fn save_due(&mut self, mark: u64, clock_ms: u64) -> (r: bool)
        ensures
            r == (clock_ms - old(self).last_ms >= SAVE_EVERY_MS && mark != old(self).saved),
            r <==> clock_ms >= old(self).last_ms + 10_000 && mark != old(self).saved,
            *final(self) == (if clock_ms - old(self).last_ms >= SAVE_EVERY_MS {
                SaveClock { last_ms: clock_ms, saved: mark }
            } else {
                *old(self)
            }),
    {
        if clock_ms < self.last_ms || clock_ms - self.last_ms < SAVE_EVERY_MS {
            return false;
        }
        self.last_ms = clock_ms;
        let changed = mark != self.saved;
        self.saved = mark;
        changed
    }
}

/// How long two reports of the position may lie apart for the time between
/// them to count as listened to.
pub const MAX_STEP_MS: u64 = 2_000;

/// Shorter tracks are not counted.
pub const MIN_TRACK_MS: u64 = 30_000;

/// Longer listening than this always counts.
pub const ENOUGH_MS: u64 = 240_000;

/// Counts listening time, and each play once.
#[derive(Debug, Clone, Copy, PartialEq, Eq, Structural)]
pub struct PlayCounter {
    /// Whether the current play has been counted, or none has started.
    pub counted: bool,
    pub listened_ms: u64,
    pub last_pos: u64,
}

/// How long a track of some length must be listened to: half of it, at most
/// four minutes.
pub open spec fn enough_ms(dur: u64) -> int {
    if dur as int / 2 < ENOUGH_MS {
        dur as int / 2
    } else {
        ENOUGH_MS as int
    }
}

/// The counter after a report of the position. Real listening time counts,
/// not seeks.
pub open spec fn heard(c: PlayCounter, pos: u64) -> PlayCounter {
    let step = if pos >= c.last_pos {
        pos - c.last_pos
    } else {
        0
    };
    PlayCounter {
        listened_ms: if step < MAX_STEP_MS {
            if c.listened_ms + step <= u64::MAX {
                (c.listened_ms + step) as u64
            } else {
                u64::MAX
            }
        } else {
            c.listened_ms
        },
        last_pos: pos,
        ..c
    }
}

/// Whether a play counts now.
pub open spec fn counts(c: PlayCounter, dur: u64) -> bool {
    !c.counted && dur > MIN_TRACK_MS && c.listened_ms >= enough_ms(dur)
}

impl PlayCounter {
    /// Nothing plays.
    pub fn new() -> (c: PlayCounter)
        ensures
            c == (PlayCounter { counted: true, listened_ms: 0, last_pos: 0 }),
    {
        PlayCounter { counted: true, listened_ms: 0, last_pos: 0 }
    }

    /// A track has started.
    pub fn started(&mut self)
        ensures
            *final(self) == (PlayCounter { counted: false, listened_ms: 0, last_pos: 0 }),
    {
        self.counted = false;
        self.listened_ms = 0;
        self.last_pos = 0;
    }

    /// The engine has reported its position. A play that was long enough to
    /// count is recorded and published, once.
    pub fn on_position(&mut self, ctl: &mut Controller, pos_ms: u64, dur_ms: Option<u64>) -> (effects:
        Vec<CtlEffect>)
        requires
            ctl_wf(old(ctl)@),
        ensures
            ctl_wf(final(ctl)@),
            final(ctl)@ == (CtlView {
                pos_ms,
                dur_ms: match dur_ms {
                    Some(d) => if d > 0 {
                        d
                    } else {
                        old(ctl)@.dur_ms
                    },
                    None => old(ctl)@.dur_ms,
                },
                ..old(ctl)@
            }),
            ({
                let now = heard(*old(self), pos_ms);
                match item_at(old(ctl)@) {
                    Some(it) => if counts(now, final(ctl)@.dur_ms) {
                        *final(self) == (PlayCounter { counted: true, ..now }) && effects@ == (
                        match it.info.path {
                            Some(path) => seq![CtlEffect::RecordPlay { path }],
                            None => Seq::empty(),
                        }) + seq![CtlEffect::Publish(CtlEvent::Played(it.info))]
                    } else {
                        *final(self) == now && effects@ == Seq::<CtlEffect>::empty()
                    },
                    None => *final(self) == now && effects@ == Seq::<CtlEffect>::empty(),
                }
            }),
    {
        let step: u64 = pos_ms.saturating_sub(self.last_pos);
        if step < MAX_STEP_MS {
            self.listened_ms = self.listened_ms.saturating_add(step);
        }
        self.last_pos = pos_ms;
        ctl.state.pos_ms = pos_ms;
        if let Some(d) = dur_ms {
            if d > 0 {
                ctl.state.dur_ms = d;
            }
        }
        let dur: u64 = ctl.state.dur_ms;
        let enough: u64 = if dur / 2 < ENOUGH_MS {
            dur / 2
        } else {
            ENOUGH_MS
        };
        let mut effects: Vec<CtlEffect> = Vec::new();
        if !self.counted && dur > MIN_TRACK_MS && self.listened_ms >= enough {
            let info: Option<TrackInfo> = ctl.state.track();
            if let Some(info) = info {
                self.counted = true;
                if let Some(p) = &info.path {
                    effects.push(CtlEffect::RecordPlay { path: p.clone() });
                }
                let ghost head = effects@;
                effects.push(CtlEffect::Publish(CtlEvent::Played(info)));
                proof {
                    let it = item_at(old(ctl)@)->0;
                    let first = match it.info.path {
                        Some(path) => seq![CtlEffect::RecordPlay { path }],
                        None => Seq::empty(),
                    };
                    assert(head == first);
                    assert(effects@ == first + seq![
                        CtlEffect::Publish(CtlEvent::Played(it.info)),
                    ]);
                }
            }
        }
        effects
    }
}

/// A play counts at most once: after it has counted, it does not count again
/// until another track starts, however far the position moves.
pub proof fn a_play_counts_once(c: PlayCounter, pos: u64, dur: u64)
    requires
        c.counted,
    ensures
        heard(c, pos).counted,
        !counts(heard(c, pos), dur),
{
}

/// A jump of the position, as a seek makes it, adds nothing to the time that
/// was listened to.
pub proof fn seeks_do_not_count(c: PlayCounter, pos: u64)
    requires
        pos >= c.last_pos + MAX_STEP_MS || pos <= c.last_pos,
    ensures
        heard(c, pos).listened_ms == c.listened_ms,
{
}

} // verus!
