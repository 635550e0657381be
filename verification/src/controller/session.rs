//! Saving a session and restoring it.

use vstd::prelude::*;

use crate::controller::laws::lemma_numbered;
use crate::controller::model::{numbered, CtlOut};
use crate::controller::queue::has_room;
use crate::controller::state::{
    ctl_wf, Controller, CtlEffect, CtlEvent, CtlView, Origin, PlayContext, QueueItem, Repeat,
    TrackInfo,
};

verus! {

/// What is kept of a session.
#[derive(Debug)]
pub struct Session {
    pub queue: Vec<TrackInfo>,
    pub current: Option<usize>,
    pub pos_ms: u64,
    pub volume: u32,
    pub shuffle: bool,
    pub repeat: Repeat,
    pub context: PlayContext,
}

/// The infos of queue items.
pub open spec fn infos_of(q: Seq<QueueItem>) -> Seq<TrackInfo> {
    Seq::new(q.len(), |i: int| q[i].info)
}

/// Whether a session is what is kept of a state.
pub open spec fn session_of(v: CtlView, s: Session) -> bool {
    &&& s.queue@ == infos_of(v.queue)
    &&& s.current == v.current
    &&& s.pos_ms == v.pos_ms
    &&& s.volume == v.volume
    &&& s.shuffle == v.shuffle
    &&& s.repeat == v.repeat
    &&& s.context == v.context
}

/// The state that a session is restored to, with nothing playing.
pub open spec fn restored(v: CtlView, s: Session) -> CtlOut {
    let items = numbered(s.queue@, v.next_id);
    let current = match s.current {
        Some(i) => if i < items.len() {
            Some(i)
        } else {
            None
        },
        None => None,
    };
    let volume = if s.volume <= 100 {
        s.volume
    } else {
        100
    };
    CtlOut {
        ctl: CtlView {
            queue: items,
            current,
            dur_ms: match current {
                Some(i) => items[i as int].info.duration_ms,
                None => 0,
            },
            pos_ms: s.pos_ms,
            volume,
            shuffle: s.shuffle,
            repeat: s.repeat,
            context: s.context,
            queue_rev: (v.queue_rev + 1) as u64,
            next_id: (v.next_id + items.len()) as u64,
            resume_at: Some(s.pos_ms),
            ..v
        },
        effects: seq![
            CtlEffect::SetVolume { percent: volume },
            CtlEffect::Publish(CtlEvent::QueueChanged),
            CtlEffect::Publish(CtlEvent::TrackChanged),
        ],
    }
}

impl Controller {
    /// What to save of the session: nothing while a remote control point
    /// drives the queue.
    pub fn save_session(&self) -> (r: Option<Session>)
        ensures
            r is None <==> self@.origin == Origin::Remote,
            r matches Some(s) ==> session_of(self@, s),
    {
        if self.state.origin == Origin::Remote {
            return None;
        }
        let mut queue: Vec<TrackInfo> = Vec::new();
        for i in 0..self.state.queue.len()
            invariant
                queue@ == infos_of(self@.queue).subrange(0, i as int),
        {
            queue.push(self.state.queue[i].info.clone());
            assert(infos_of(self@.queue).subrange(0, i + 1) == infos_of(self@.queue).subrange(
                0,
                i as int,
            ).push(self@.queue[i as int].info));
        }
        assert(infos_of(self@.queue).subrange(0, self@.queue.len() as int) == infos_of(
            self@.queue,
        ));
        Some(
            Session {
                queue,
                current: self.state.current,
                pos_ms: self.state.pos_ms,
                volume: self.state.volume,
                shuffle: self.state.shuffle,
                repeat: self.state.repeat,
                context: self.state.context.clone(),
            },
        )
    }

    /// Restore a previous session (paused).
    pub fn restore_session(&mut self, s: Session) -> (effects: Vec<CtlEffect>)
        requires
            ctl_wf(old(self)@),
            has_room(old(self)@, s.queue@.len()),
        ensures
            final(self)@ == restored(old(self)@, s).ctl,
            effects@ == restored(old(self)@, s).effects,
            ctl_wf(final(self)@),
    {
        let ghost v = self@;
        let ghost list = s.queue@;
        let items = self.new_items(s.queue);
        proof {
            lemma_numbered(list, v.next_id);
        }
        let n = items.len();
        let current: Option<usize> = match s.current {
            Some(i) => if i < n {
                Some(i)
            } else {
                None
            },
            None => None,
        };
        self.state.current = current;
        self.state.dur_ms = match current {
            Some(i) => items[i].info.duration_ms,
            None => 0,
        };
        self.state.queue = items;
        self.state.pos_ms = s.pos_ms;
        let volume: u32 = if s.volume <= 100 {
            s.volume
        } else {
            100
        };
        self.state.volume = volume;
        self.state.shuffle = s.shuffle;
        self.state.repeat = s.repeat;
        self.state.context = s.context;
        self.state.queue_rev = self.state.queue_rev + 1;
        self.resume_at = Some(s.pos_ms);
        let mut effects: Vec<CtlEffect> = Vec::new();
        effects.push(CtlEffect::SetVolume { percent: volume });
        effects.push(CtlEffect::Publish(CtlEvent::QueueChanged));
        effects.push(CtlEffect::Publish(CtlEvent::TrackChanged));
        assert(effects@ == restored(v, s).effects);
        effects
    }
}

/// A session that is saved and restored comes back: the same tracks in the same
/// order, the same one current at the same position, the same modes.
pub proof fn session_survives(v: CtlView, s: Session, fresh: CtlView)
    requires
        ctl_wf(v),
        v.volume <= 100,
        session_of(v, s),
    ensures
        ({
            let w = restored(fresh, s).ctl;
            &&& infos_of(w.queue) == infos_of(v.queue)
            &&& w.current == v.current
            &&& w.pos_ms == v.pos_ms
            &&& w.resume_at == Some(v.pos_ms)
            &&& w.volume == v.volume
            &&& w.shuffle == v.shuffle
            &&& w.repeat == v.repeat
            &&& w.context == v.context
        }),
{
    assert(infos_of(restored(fresh, s).ctl.queue) == infos_of(v.queue));
}

} // verus!
