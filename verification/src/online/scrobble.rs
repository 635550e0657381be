//! Service-agnostic scrobbling: when does a play count as a listen, and a
//! durable queue for listens that could not be submitted yet.

use std::collections::VecDeque;

use vstd::prelude::*;

use crate::text::{concat2, copy_opt};

verus! {

/// Metadata of a track as sent to scrobbling services.
#[derive(Debug, PartialEq, Eq)]
pub struct ScrobbleTrack {
    pub artist: String,
    pub title: String,
    pub album: Option<String>,
    pub album_artist: Option<String>,
    /// Track length; `0` means unknown.
    pub duration_ms: u64,
    pub track_number: Option<u32>,
    /// MusicBrainz recording ID.
    pub mbid: Option<String>,
}

impl Clone for ScrobbleTrack {
    fn clone(&self) -> (r: ScrobbleTrack)
        ensures
            r == *self,
    {
        ScrobbleTrack {
            artist: self.artist.clone(),
            title: self.title.clone(),
            album: copy_opt(&self.album),
            album_artist: copy_opt(&self.album_artist),
            duration_ms: self.duration_ms,
            track_number: self.track_number,
            mbid: copy_opt(&self.mbid),
        }
    }
}

/// A qualifying listen, ready to submit.
#[derive(Debug, PartialEq, Eq)]
pub struct Scrobble {
    pub track: ScrobbleTrack,
    /// When playback of this track started (Unix seconds, UTC).
    pub started_at_unix: i64,
}

impl Clone for Scrobble {
    fn clone(&self) -> (r: Scrobble)
        ensures
            r == *self,
    {
        Scrobble { track: self.track.clone(), started_at_unix: self.started_at_unix }
    }
}

/// Tracks shorter than this are never scrobbled (Last.fm/ListenBrainz rule).
pub const MIN_TRACK_MS: u64 = 30_000;

/// Listening this long always qualifies, whatever the track length.
pub const MAX_THRESHOLD_MS: u64 = 240_000;

/// Listened time after which a track qualifies, or `None` if it never can.
pub open spec fn threshold(duration_ms: u64) -> Option<u64> {
    if duration_ms == 0 {
        Some(MAX_THRESHOLD_MS)
    } else if duration_ms <= MIN_TRACK_MS {
        None
    } else if duration_ms / 2 < MAX_THRESHOLD_MS {
        Some((duration_ms / 2) as u64)
    } else {
        Some(MAX_THRESHOLD_MS)
    }
}

/// Listened time after which a track qualifies, or `None` if it never can.
///
/// Standard rule: the track must be longer than 30 s, and qualifies once
/// `min(50 % of duration, 4 min)` has actually been heard. With an unknown
/// duration (`0`) we require the full 4 minutes, which implies > 30 s.
pub fn threshold_ms(duration_ms: u64) -> (r: Option<u64>)
    ensures
        r == threshold(duration_ms),
{
    if duration_ms == 0 {
        Some(MAX_THRESHOLD_MS)
    } else if duration_ms <= MIN_TRACK_MS {
        None
    } else if duration_ms / 2 < MAX_THRESHOLD_MS {
        Some(duration_ms / 2)
    } else {
        Some(MAX_THRESHOLD_MS)
    }
}

#[derive(Debug)]
struct Play {
    track: ScrobbleTrack,
    started_at_unix: i64,
    listened_ms: u64,
    emitted: bool,
}

/// A play as it is seen from outside.
pub struct PlayView {
    pub track: ScrobbleTrack,
    pub started_at_unix: i64,
    pub listened_ms: u64,
    pub emitted: bool,
}

/// Pure state machine deciding when the current play becomes a scrobble.
///
/// How to feed it:
/// - [`on_track_started`](Self::on_track_started) whenever playback of a
///   track begins, including when the same track is repeated or restarted
///   from the beginning (each call is a new play).
/// - [`on_progress`](Self::on_progress) with the **delta** of audio actually
///   played since the previous call, in ms. Do not feed while paused, and do
///   not count seek jumps: only wall-clock time spent rendering audio. Seeking
///   therefore neither helps nor hurts qualification.
/// - [`on_track_ended`](Self::on_track_ended) when playback stops or the
///   track finishes.
///
/// The scrobble is yielded by `on_progress` at the moment the threshold is
/// crossed (so a crash later in the track does not lose it), and at most once
/// per play.
#[derive(Debug)]
pub struct ScrobbleTracker {
    current: Option<Play>,
}

impl View for ScrobbleTracker {
    type V = Option<PlayView>;

    closed spec fn view(&self) -> Option<PlayView> {
        match self.current {
            Some(p) => Some(
                PlayView {
                    track: p.track,
                    started_at_unix: p.started_at_unix,
                    listened_ms: p.listened_ms,
                    emitted: p.emitted,
                },
            ),
            None => None,
        }
    }
}

/// A play after some more audio was heard.
pub open spec fn listened(p: PlayView, played_ms: u64) -> PlayView {
    PlayView {
        listened_ms: if p.listened_ms + played_ms <= u64::MAX {
            (p.listened_ms + played_ms) as u64
        } else {
            u64::MAX
        },
        ..p
    }
}

/// Whether a play qualifies now, for the first time.
pub open spec fn qualifies(p: PlayView) -> bool {
    !p.emitted && (threshold(p.track.duration_ms) matches Some(t) && p.listened_ms >= t)
}

/// A play after some progress.
pub open spec fn progressed(p: PlayView, played_ms: u64) -> PlayView {
    let q = listened(p, played_ms);
    if qualifies(q) {
        PlayView { emitted: true, ..q }
    } else {
        q
    }
}

impl ScrobbleTracker {
    pub fn new() -> (t: ScrobbleTracker)
        ensures
            t@ is None,
    {
        ScrobbleTracker { current: None }
    }

    /// Starts a new play, abandoning any previous one.
    pub fn on_track_started(&mut self, track: ScrobbleTrack, now_unix: i64)
        ensures
            final(self)@ == Some(
                PlayView { track, started_at_unix: now_unix, listened_ms: 0, emitted: false },
            ),
    {
        self.current = Some(
            Play { track, started_at_unix: now_unix, listened_ms: 0, emitted: false },
        );
    }

    /// Adds `played_ms` of actually-heard audio (a delta, see type docs).
    /// Returns the scrobble the first time the play qualifies.
    pub fn on_progress(&mut self, played_ms: u64) -> (r: Option<Scrobble>)
        ensures
            match old(self)@ {
                None => r is None && final(self)@ is None,
                Some(p) => {
                    &&& final(self)@ == Some(progressed(p, played_ms))
                    &&& r == (if qualifies(listened(p, played_ms)) {
                        Some(Scrobble { track: p.track, started_at_unix: p.started_at_unix })
                    } else {
                        None
                    })
                },
            },
    {
        let mut play = match self.current.take() {
            Some(p) => p,
            None => {
                return None;
            },
        };
        play.listened_ms = play.listened_ms.saturating_add(played_ms);
        let due = !play.emitted && (match threshold_ms(play.track.duration_ms) {
            Some(t) => play.listened_ms >= t,
            None => false,
        });
        let r = if due {
            play.emitted = true;
            Some(Scrobble { track: play.track.clone(), started_at_unix: play.started_at_unix })
        } else {
            None
        };
        self.current = Some(play);
        r
    }

    /// Ends the current play. Further progress is ignored until the next
    /// `on_track_started`.
    pub fn on_track_ended(&mut self)
        ensures
            final(self)@ is None,
    {
        self.current = None;
    }

    /// Track currently being played, e.g. for "now playing" notifications.
    pub fn current_track(&self) -> (r: Option<&ScrobbleTrack>)
        ensures
            match self@ {
                Some(p) => r matches Some(t) && *t == p.track,
                None => r is None,
            },
    {
        match &self.current {
            Some(p) => Some(&p.track),
            None => None,
        }
    }

    /// Audio heard so far in the current play.
    pub fn listened_ms(&self) -> (n: u64)
        ensures
            n == (match self@ {
                Some(p) => p.listened_ms,
                None => 0,
            }),
    {
        match &self.current {
            Some(p) => p.listened_ms,
            None => 0,
        }
    }

    /// Whether the current play already produced its scrobble.
    pub fn is_scrobbled(&self) -> (r: bool)
        ensures
            r == (self@ matches Some(p) && p.emitted),
    {
        match &self.current {
            Some(p) => p.emitted,
            None => false,
        }
    }
}

/// A play yields its scrobble at most once: after that, no progress qualifies.
pub proof fn scrobbled_once(p: PlayView, played_ms: u64)
    requires
        p.emitted,
    ensures
        !qualifies(listened(p, played_ms)),
        progressed(p, played_ms).emitted,
{
}

/// A play after several pieces of progress.
pub open spec fn progressed_by(p: PlayView, pieces: Seq<u64>) -> PlayView
    decreases pieces.len(),
{
    if pieces.len() == 0 {
        p
    } else {
        progressed(progressed_by(p, pieces.drop_last()), pieces.last())
    }
}

/// The sum of some pieces.
pub open spec fn total(pieces: Seq<u64>) -> int
    decreases pieces.len(),
{
    if pieces.len() == 0 {
        0
    } else {
        total(pieces.drop_last()) + pieces.last()
    }
}

/// Whether a play has been scrobbled depends only on how much of it was heard,
/// not on the pieces in which that was reported: pauses and seeks between them
/// neither help nor hurt. The count stops at the largest number.
pub proof fn only_listening_counts(p: PlayView, pieces: Seq<u64>)
    requires
        !p.emitted,
        p.listened_ms == 0,
    ensures
        progressed_by(p, pieces).listened_ms == (if total(pieces) <= u64::MAX {
            total(pieces)
        } else {
            u64::MAX as int
        }),
        progressed_by(p, pieces).track == p.track,
        progressed_by(p, pieces).started_at_unix == p.started_at_unix,
        progressed_by(p, pieces).emitted <==> (threshold(p.track.duration_ms) matches Some(t)
            && total(pieces) >= t),
    decreases pieces.len(),
{
    if pieces.len() > 0 {
        let front = pieces.drop_last();
        lemma_total_nonneg(front);
        only_listening_counts(p, front);
    }
}

proof fn lemma_total_nonneg(pieces: Seq<u64>)
    ensures
        total(pieces) >= 0,
    decreases pieces.len(),
{
    if pieces.len() > 0 {
        lemma_total_nonneg(pieces.drop_last());
    }
}

/// The scrobbles from `from` on in chunks of a size; the last one may be
/// shorter.
pub open spec fn chunks_from(s: Seq<Scrobble>, size: nat, from: int) -> Seq<Seq<Scrobble>>
    decreases s.len() - from,
{
    if from < 0 || from >= s.len() || size == 0 {
        Seq::empty()
    } else {
        let end = if from + size < s.len() {
            from + size
        } else {
            s.len() as int
        };
        seq![s.subrange(from, end)] + chunks_from(s, size, end)
    }
}

/// Up to `max` oldest scrobbles of a queue.
pub open spec fn oldest(queue: Seq<Scrobble>, max: nat) -> Seq<Scrobble> {
    if max <= queue.len() {
        queue.subrange(0, max as int)
    } else {
        queue
    }
}

/// A queue without its up to `max` oldest scrobbles.
pub open spec fn after_oldest(queue: Seq<Scrobble>, max: nat) -> Seq<Scrobble> {
    if max <= queue.len() {
        queue.subrange(max as int, queue.len() as int)
    } else {
        Seq::empty()
    }
}

/// A queue with a batch in front.
pub open spec fn put_back(batch: Seq<Scrobble>, queue: Seq<Scrobble>) -> Seq<Scrobble> {
    batch + queue
}

/// The contents of a `ScrobbleQueue`.
#[verifier::ext_equal]
pub struct QueueView {
    /// Where the queue is stored.
    pub location: Seq<char>,
    /// The scrobbles, oldest first.
    pub waiting: Seq<Scrobble>,
    /// Whether there is anything to write to the file.
    pub unsaved: bool,
}

/// The queue of a file that holds some scrobbles.
pub open spec fn queue_of(location: Seq<char>, stored: Seq<Scrobble>) -> QueueView {
    QueueView { location, waiting: stored, unsaved: false }
}

/// A scrobble is appended.
pub open spec fn queued(v: QueueView, s: Scrobble) -> QueueView {
    QueueView { waiting: v.waiting.push(s), unsaved: true, ..v }
}

/// Up to `max` of the oldest leave.
pub open spec fn drained(v: QueueView, max: nat) -> QueueView {
    QueueView {
        waiting: after_oldest(v.waiting, max),
        unsaved: v.unsaved || oldest(v.waiting, max).len() > 0,
        ..v
    }
}

/// A batch is put back.
pub open spec fn requeued(v: QueueView, batch: Seq<Scrobble>) -> QueueView {
    QueueView {
        waiting: put_back(batch, v.waiting),
        unsaved: v.unsaved || batch.len() > 0,
        ..v
    }
}

/// The queue after an attempt to write it.
pub open spec fn written(v: QueueView, ok: bool) -> QueueView {
    QueueView { unsaved: v.unsaved && !ok, ..v }
}

/// What the file of a queue holds after the queue was written to it, if there
/// was anything to write. The file is replaced as a whole: an attempt that
/// fails leaves it as it was.
pub open spec fn stored_after(stored: Seq<Scrobble>, v: QueueView, ok: bool) -> Seq<Scrobble> {
    if v.unsaved && ok {
        v.waiting
    } else {
        stored
    }
}

/// Whether the file holds what the queue does, unless there is more to write.
pub open spec fn is_stored(stored: Seq<Scrobble>, v: QueueView) -> bool {
    v.unsaved || stored == v.waiting
}

/// FIFO of scrobbles awaiting submission.
///
/// Every mutation is to be written through ([`is_unsaved`](Self::is_unsaved)
/// says so, [`contents`](Self::contents) gives what is written and
/// [`saved`](Self::saved) takes in what came of it), so that the queue survives
/// crashes and power loss. Typical use: `let batch = q.drain_batch(50);` submit
/// it, and on a transient failure `q.requeue(batch)`.
#[derive(Debug)]
pub struct ScrobbleQueue {
    path: String,
    items: VecDeque<Scrobble>,
    unsaved: bool,
}

impl View for ScrobbleQueue {
    type V = QueueView;

    closed spec fn view(&self) -> QueueView {
        QueueView { location: self.path@, waiting: self.items@, unsaved: self.unsaved }
    }
}

impl ScrobbleQueue {
    /// The scrobbles, oldest first.
    pub open spec fn waiting(&self) -> Seq<Scrobble> {
        self@.waiting
    }

    /// Where the queue is stored.
    pub open spec fn location(&self) -> Seq<char> {
        self@.location
    }

    /// The queue stored at `path`, with what was read from there.
    pub fn open(path: String, items: Vec<Scrobble>) -> (q: ScrobbleQueue)
        ensures
            q@ == queue_of(path@, items@),
    {
        let ghost all = items@;
        let mut left = items;
        let mut queue: VecDeque<Scrobble> = VecDeque::new();
        assert(all.subrange(0, all.len() as int) == all);
        while left.len() > 0
            invariant
                left@ + queue@ == all,
            decreases left@.len(),
        {
            let ghost before = left@;
            if let Some(s) = left.pop() {
                let ghost tail = queue@;
                queue.push_front(s);
                assert(before == left@.push(s));
                assert(queue@ == seq![s] + tail);
                assert(left@ + (seq![s] + tail) == left@.push(s) + tail);
            }
        }
        assert(queue@ == all);
        ScrobbleQueue { path, items: queue, unsaved: false }
    }

    /// Where a corrupt queue file is moved, rather than blocking scrobbling.
    pub fn aside(path: &str) -> (r: String)
        ensures
            r@ == path@ + ".corrupt"@,
    {
        concat2(path, ".corrupt")
    }

    pub fn path(&self) -> (p: &str)
        ensures
            p@ == self.location(),
    {
        self.path.as_str()
    }

    pub fn len(&self) -> (n: usize)
        ensures
            n == self.waiting().len(),
    {
        self.items.len()
    }

    pub fn is_empty(&self) -> (r: bool)
        ensures
            r == (self.waiting().len() == 0),
    {
        self.items.len() == 0
    }

    /// A scrobble of the queue, by its position.
    pub fn get(&self, i: usize) -> (r: Option<&Scrobble>)
        ensures
            match r {
                Some(s) => i < self.waiting().len() && *s == self.waiting()[i as int],
                None => i >= self.waiting().len(),
            },
    {
        if i < self.items.len() {
            Some(&self.items[i])
        } else {
            None
        }
    }

    /// Whether the queue is to be written to its file.
    pub fn is_unsaved(&self) -> (r: bool)
        ensures
            r == self@.unsaved,
    {
        self.unsaved
    }

    /// What is written to the file.
    pub fn contents(&self) -> (r: Vec<Scrobble>)
        ensures
            r@ == self.waiting(),
    {
        let mut r: Vec<Scrobble> = Vec::new();
        for i in 0..self.items.len()
            invariant
                r@ == self.items@.subrange(0, i as int),
        {
            r.push(self.items[i].clone());
        }
        assert(self.items@.subrange(0, self.items@.len() as int) == self.items@);
        r
    }

    /// Takes in what came of writing the queue to its file.
    pub fn saved(&mut self, ok: bool)
        ensures
            final(self)@ == written(old(self)@, ok),
    {
        self.unsaved = self.unsaved && !ok;
    }

    /// Appends a scrobble.
    pub fn push(&mut self, scrobble: Scrobble)
        ensures
            final(self)@ == queued(old(self)@, scrobble),
    {
        self.items.push_back(scrobble);
        self.unsaved = true;
    }

    /// Removes and returns up to `max` oldest scrobbles. Hand them back with
    /// [`requeue`](Self::requeue) on failure.
    pub fn drain_batch(&mut self, max: usize) -> (batch: Vec<Scrobble>)
        ensures
            batch@ == oldest(old(self).waiting(), max as nat),
            final(self)@ == drained(old(self)@, max as nat),
    {
        let ghost all = self.items@;
        let mut batch: Vec<Scrobble> = Vec::new();
        while batch.len() < max && self.items.len() > 0
            invariant
                batch@ + self.items@ == all,
                batch@.len() <= max,
                self.location() == old(self).location(),
                self.unsaved == old(self).unsaved,
            decreases self.items@.len(),
        {
            let ghost before = self.items@;
            let ghost done = batch@;
            if let Some(s) = self.items.pop_front() {
                batch.push(s);
                assert(before == seq![s] + self.items@);
                assert(done + (seq![s] + self.items@) == done.push(s) + self.items@);
            }
        }
        assert(batch@ == oldest(all, max as nat));
        assert(self.items@ == after_oldest(all, max as nat));
        if batch.len() > 0 {
            self.unsaved = true;
        }
        batch
    }

    /// Puts a batch back at the front, preserving its order.
    pub fn requeue(&mut self, batch: Vec<Scrobble>)
        ensures
            final(self)@ == requeued(old(self)@, batch@),
    {
        let ghost want = batch@ + self.items@;
        if batch.len() > 0 {
            self.unsaved = true;
        }
        let mut left = batch;
        while left.len() > 0
            invariant
                left@ + self.items@ == want,
                self.location() == old(self).location(),
                self.unsaved == (old(self).unsaved || batch@.len() > 0),
            decreases left@.len(),
        {
            let ghost before = left@;
            let ghost tail = self.items@;
            if let Some(s) = left.pop() {
                self.items.push_front(s);
                assert(before == left@.push(s));
                assert(self.items@ == seq![s] + tail);
                assert(left@ + (seq![s] + tail) == left@.push(s) + tail);
            }
        }
        assert(self.items@ == want);
    }
}

/// What a failed submission hands back stands where it stood: draining a batch
/// and putting it back keeps the queue's order, also where scrobbles were
/// pushed meanwhile.
pub proof fn requeue_undoes_drain(queue: Seq<Scrobble>, max: nat, later: Seq<Scrobble>)
    ensures
        put_back(oldest(queue, max), after_oldest(queue, max) + later) == queue + later,
{
}

/// A queue that was pushed to and written is found again in its file: with
/// what it held, and the new scrobble behind.
pub proof fn a_push_survives(v: QueueView, stored: Seq<Scrobble>, s: Scrobble)
    ensures
        ({
            let q = queued(v, s);
            let file = stored_after(stored, q, true);
            &&& q.waiting == v.waiting.push(s)
            &&& queue_of(v.location, file) == written(q, true)
        }),
{
}

/// A batch and what stays are what the queue held, and once it was written the
/// file holds what stays. Where no batch leaves, nothing is written; where
/// writing fails, the file holds what it held.
pub proof fn a_batch_leaves_the_file(v: QueueView, stored: Seq<Scrobble>, max: nat)
    requires
        is_stored(stored, v),
    ensures
        ({
            let q = drained(v, max);
            let batch = oldest(v.waiting, max);
            let file = stored_after(stored, q, true);
            &&& batch.len() == (if max < v.waiting.len() {
                max
            } else {
                v.waiting.len()
            })
            &&& batch + q.waiting == v.waiting
            &&& queue_of(v.location, file) == written(q, true)
            &&& (max == 0 || v.waiting.len() == 0) ==> q == v
            &&& stored_after(stored, q, false) == stored
        }),
{
}

/// A batch that left and was put back leaves no trace, neither in the queue nor
/// in its file, when both steps were written.
pub proof fn requeue_restores_the_file(v: QueueView, stored: Seq<Scrobble>, max: nat)
    requires
        is_stored(stored, v),
    ensures
        ({
            let left = drained(v, max);
            let between = stored_after(stored, left, true);
            let back = requeued(written(left, true), oldest(v.waiting, max));
            let file = stored_after(between, back, true);
            &&& back.waiting == v.waiting
            &&& queue_of(v.location, file) == written(back, true)
        }),
{
    requeue_undoes_drain(v.waiting, max, Seq::empty());
    assert(after_oldest(v.waiting, max) + Seq::<Scrobble>::empty() == after_oldest(v.waiting, max));
    assert(v.waiting + Seq::<Scrobble>::empty() == v.waiting);
}

} // verus!
