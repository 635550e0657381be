//! Changing the queue.

use vstd::prelude::*;

use crate::audio::gain::TrackOpts;
use crate::audio::player::TransportStatus;
use crate::config::ReplayGain;
use crate::controller::laws::{
    album_order_is_total, lemma_kept, lemma_no_ids, lemma_numbered, lemma_part_ids,
    lemma_permuted_ids, lemma_push_ids,
};
use crate::controller::model::{
    album_order, current_alone, enqueue_position, enqueued, gain_for, id_from, ids_removed, index_played, item_moved, kept, loaded,
    numbered, queue_changed, queue_cleared, rearmed, remote_followed, remote_set, repeat_set,
    shortened, shuffle_set, shuffled_queue, successor, tracks_played, upcoming_cleared, with_items,
};
use crate::controller::promises::the_follower_is_armed;
use crate::controller::state::{
    ctl_wf, ids_below, ids_differ, is_remote_info, Controller, CtlEffect, CtlEvent, CtlView,
    EnqueueAt, Origin, PlayContext, QueueItem, Repeat, TrackInfo,
};
use crate::library::meta::TagInfo;
use crate::order::{
    chars_le, insert_sorted, shuffle_in_place, shuffle_is_permutation, shuffled, sort_stable,
    sorting_is_stable,
};
use crate::text::{chars_of, same_opt, same_str};

verus! {

/// Whether ids and revisions can go on being counted for `n` more items.
pub open spec fn has_room(v: CtlView, n: nat) -> bool {
    v.next_id + n <= u64::MAX && v.queue_rev < u64::MAX
}

/// ReplayGain for an item; album gain only when the album plays in order.
pub fn opts_for(
    context: &PlayContext,
    shuffle: bool,
    mode: ReplayGain,
    info: &TrackInfo,
) -> (o: TrackOpts)
    ensures
        o == gain_for(*context, shuffle, mode, *info),
{
    let album_ctx = match context {
        PlayContext::Album(_) => true,
        _ => false,
    };
    let album = match mode {
        ReplayGain::Off => {
            return TrackOpts { gain_db: None, peak: None };
        },
        ReplayGain::Track => false,
        ReplayGain::Album => true,
        ReplayGain::Auto => album_ctx && !shuffle,
    };
    if album && info.rg_album_gain.is_some() {
        TrackOpts { gain_db: info.rg_album_gain, peak: info.rg_album_peak }
    } else {
        TrackOpts { gain_db: info.rg_track_gain, peak: info.rg_track_peak }
    }
}

/// Where the item with an id stands.
pub(crate) fn find_id(q: &Vec<QueueItem>, id: u64) -> (r: Option<usize>)
    ensures
        r == id_from(q@, id, 0),
        r matches Some(i) ==> i < q@.len() && q@[i as int].id == id,
{
    let n = q.len();
    for i in 0..n
        invariant
            n == q@.len(),
            id_from(q@, id, 0) == id_from(q@, id, i as int),
    {
        if q[i].id == id {
            return Some(i);
        }
    }
    None
}

fn contains_id(ids: &[u64], id: u64) -> (r: bool)
    ensures
        r == ids@.contains(id),
{
    for i in 0..ids.len()
        invariant
            forall|j: int| 0 <= j < i ==> ids@[j] != id,
    {
        if ids[i] == id {
            assert(ids@[i as int] == id);
            return true;
        }
    }
    false
}

/// Whether `a` may stand before `b` in the natural order.
fn album_le(a: &QueueItem, b: &QueueItem) -> (r: bool)
    ensures
        r == album_order()(*a, *b),
{
    if same_opt(&a.info.album_id, &b.info.album_id) {
        match (a.info.track_no, b.info.track_no) {
            (None, _) => true,
            (Some(_), None) => false,
            (Some(x), Some(y)) => x <= y,
        }
    } else {
        match (&a.info.album_id, &b.info.album_id) {
            (None, _) => true,
            (Some(_), None) => false,
            (Some(x), Some(y)) => chars_le(&chars_of(x.as_str()), &chars_of(y.as_str())),
        }
    }
}

/// Puts items in their natural order; equal ones keep theirs.
fn sort_items(items: Vec<QueueItem>) -> (r: Vec<QueueItem>)
    ensures
        r@ == sort_stable(items@, album_order()),
{
    let ghost all = items@;
    let ghost same = |q: QueueItem| q;
    let mut out: Vec<QueueItem> = Vec::new();
    assert(all.subrange(0, 0) == Seq::<QueueItem>::empty());
    for a in it: items.into_iter()
        invariant
            it.seq() == all,
            same == (|q: QueueItem| q),
            out@ == sort_stable(all.subrange(0, it.index()), album_order()),
    {
        let ghost n = it.index();
        let ghost before = out@;
        assert(all.subrange(0, n + 1).drop_last() == all.subrange(0, n));
        insert_sorted::<_, QueueItem, _>(&mut out, a, album_le, Ghost(same), Ghost(album_order()));
        assert(before.map_values(same) == before);
        assert(out@.map_values(same) == out@);
    }
    assert(all.subrange(0, all.len() as int) == all);
    out
}

/// Puts items into a queue.
fn splice(q: &mut Vec<QueueItem>, items: Vec<QueueItem>, pos: usize, next_id: Ghost<u64>)
    requires
        pos <= old(q)@.len(),
        ids_differ(old(q)@),
        ids_below(old(q)@, next_id@ as int),
        ids_differ(items@),
        ids_below(items@, next_id@ + items@.len()),
        forall|i: int| 0 <= i < items@.len() ==> (#[trigger] items@[i]).id >= next_id@,
    ensures
        final(q)@ == old(q)@.subrange(0, pos as int) + items@ + old(q)@.subrange(
            pos as int,
            old(q)@.len() as int,
        ),
        ids_differ(final(q)@),
        ids_below(final(q)@, next_id@ + items@.len()),
{
    let ghost before = q@;
    let ghost fresh = items@;
    let mut items = items;
    let mut tail = q.split_off(pos);
    q.append(&mut items);
    q.append(&mut tail);
    proof {
        assert(q@ == before.subrange(0, pos as int) + fresh + before.subrange(
            pos as int,
            before.len() as int,
        ));
        lemma_spliced_ids(before, fresh, pos as int, next_id@);
    }
}

/// Removes the items with the given ids.
fn drop_ids(queue: &mut Vec<QueueItem>, ids: &[u64], next_id: Ghost<u64>)
    requires
        ids_differ(old(queue)@),
        ids_below(old(queue)@, next_id@ as int),
    ensures
        final(queue)@ == kept(old(queue)@, ids@, old(queue)@.len()),
        ids_differ(final(queue)@),
        ids_below(final(queue)@, next_id@ as int),
{
    let ghost q = queue@;
    let mut i: usize = 0;
    let ghost mut done: nat = 0;
    assert(q.subrange(0, q.len() as int) == q);
    assert(kept(q, ids@, 0) + q == q);
    while i < queue.len()
        invariant
            0 <= done <= q.len(),
            i == kept(q, ids@, done).len(),
            queue@ == kept(q, ids@, done) + q.subrange(done as int, q.len() as int),
        decreases q.len() - done,
    {
        let ghost before = kept(q, ids@, done);
        let ghost rest = q.subrange(done as int, q.len() as int);
        assert(done < q.len());
        assert(queue@[i as int] == q[done as int]);
        assert(rest.drop_first() == q.subrange(done as int + 1, q.len() as int));
        if contains_id(ids, queue[i].id) {
            let _gone = queue.remove(i);
            assert(queue@ == before + rest.drop_first());
        } else {
            assert(queue@ == before.push(q[done as int]) + rest.drop_first());
            i = i + 1;
        }
        proof {
            done = done + 1;
        }
    }
    proof {
        assert(done == q.len());
        assert(queue@ == kept(q, ids@, q.len()));
        lemma_kept(q, ids@, q.len(), next_id@);
    }
}

/// Shuffles the items from a position on.
fn shuffle_rest(q: &mut Vec<QueueItem>, from: usize, seed: u64)
    requires
        from <= old(q)@.len(),
        ids_differ(old(q)@),
    ensures
        final(q)@ == old(q)@.subrange(0, from as int) + shuffled(
            old(q)@.subrange(from as int, old(q)@.len() as int),
            seed,
        ),
        final(q)@.len() == old(q)@.len(),
        ids_differ(final(q)@),
        forall|n: int| #[trigger] ids_below(old(q)@, n) ==> ids_below(final(q)@, n),
{
    let ghost before = q@;
    let mut rest = q.split_off(from);
    shuffle_in_place(&mut rest, seed);
    let ghost mixed = rest@;
    q.append(&mut rest);
    proof {
        assert(q@ == before.subrange(0, from as int) + mixed);
        lemma_rest_permuted(before, from as int, mixed);
        lemma_permuted_ids(before, q@);
    }
}

/// Puts the items from a position on in their natural order.
fn sort_rest(q: &mut Vec<QueueItem>, from: usize)
    requires
        from <= old(q)@.len(),
        ids_differ(old(q)@),
    ensures
        final(q)@ == old(q)@.subrange(0, from as int) + sort_stable(
            old(q)@.subrange(from as int, old(q)@.len() as int),
            album_order(),
        ),
        final(q)@.len() == old(q)@.len(),
        ids_differ(final(q)@),
        forall|n: int| #[trigger] ids_below(old(q)@, n) ==> ids_below(final(q)@, n),
{
    let ghost before = q@;
    let rest = q.split_off(from);
    let ghost part = rest@;
    let mut sorted = sort_items(rest);
    let ghost ordered = sorted@;
    q.append(&mut sorted);
    proof {
        assert(q@ == before.subrange(0, from as int) + ordered);
        album_order_is_total();
        sorting_is_stable(part, album_order());
        lemma_rest_permuted(before, from as int, ordered);
        lemma_permuted_ids(before, q@);
    }
}

/// Keeps of a queue only the item at a position.
fn keep_one(q: &mut Vec<QueueItem>, cur: usize)
    requires
        cur <= old(q)@.len(),
        ids_differ(old(q)@),
    ensures
        ({
            let rest = old(q)@.subrange(cur as int, old(q)@.len() as int);
            final(q)@ == (if rest.len() > 1 {
                rest.subrange(0, 1)
            } else {
                rest
            })
        }),
        ids_differ(final(q)@),
        forall|n: int| #[trigger] ids_below(old(q)@, n) ==> ids_below(final(q)@, n),
{
    let ghost before = q@;
    assert(before.subrange(0, before.len() as int) == before);
    if cur > 0 {
        let tail = q.split_off(cur);
        *q = tail;
    }
    let ghost rest = before.subrange(cur as int, before.len() as int);
    assert(q@ == rest);
    q.truncate(1);
    proof {
        assert(rest.len() == 1 ==> rest.subrange(0, 1) == rest);
        lemma_part_ids(before, cur as int, before.len() as int);
        if rest.len() > 1 {
            lemma_part_ids(rest, 0, 1);
        }
    }
}

impl Controller {
    /// Hands the current item to the engine.
    pub(crate) fn load_current(&mut self, effects: &mut Vec<CtlEffect>)
        ensures
            final(self)@ == loaded(old(self)@).ctl,
            final(effects)@ == old(effects)@ + loaded(old(self)@).effects,
    {
        self.state.pos_ms = 0;
        self.state.stream_title = None;
        let (id, uri, opts, dur) = match self.state.current_item() {
            Some(q) => (
                q.id,
                q.info.uri.clone(),
                opts_for(
                    &self.state.context,
                    self.state.shuffle,
                    self.pending.replaygain,
                    &q.info,
                ),
                q.info.duration_ms,
            ),
            None => {
                self.state.dur_ms = 0;
                assert(effects@ == old(effects)@ + Seq::<CtlEffect>::empty());
                return;
            },
        };
        self.state.dur_ms = dur;
        self.pending.armed = None;
        self.pending.loading = Some(id);
        effects.push(CtlEffect::Load { uri, opts });
        effects.push(CtlEffect::Publish(CtlEvent::TrackChanged));
        assert(effects@ == old(effects)@ + loaded(old(self)@).effects);
    }

    fn find_successor(&self) -> (r: Option<usize>)
        requires
            ctl_wf(self@),
        ensures
            match r {
                Some(k) => k < self@.queue.len() && successor(self@) == Some(
                    self@.queue[k as int],
                ),
                None => successor(self@) is None,
            },
    {
        let i = match self.state.current {
            Some(i) => i,
            None => {
                return None;
            },
        };
        if self.state.status == TransportStatus::Stopped || self.state.queue[i].info.live {
            return None;
        }
        let n = self.state.queue.len();
        let last = i + 1 >= n;
        match self.state.repeat {
            Repeat::One => Some(i),
            Repeat::All => if !last {
                Some(i + 1)
            } else {
                Some(0)
            },
            Repeat::Off => if !last {
                Some(i + 1)
            } else {
                None
            },
        }
    }

    /// Hands the engine the item that should follow the current one.
    pub(crate) fn rearm(&mut self, effects: &mut Vec<CtlEffect>)
        requires
            ctl_wf(old(self)@),
        ensures
            final(self)@ == rearmed(old(self)@).ctl,
            final(effects)@ == old(effects)@ + rearmed(old(self)@).effects,
    {
        let ghost before = effects@;
        assert(before + Seq::<CtlEffect>::empty() == before);
        match self.find_successor() {
            Some(k) => {
                let q = &self.state.queue[k];
                let same = match &self.pending.armed {
                    Some(a) => a.0 == q.id && same_str(a.1.as_str(), q.info.uri.as_str()),
                    None => false,
                };
                if !same {
                    let opts = opts_for(
                        &self.state.context,
                        self.state.shuffle,
                        self.pending.replaygain,
                        &q.info,
                    );
                    let uri = q.info.uri.clone();
                    effects.push(CtlEffect::EnqueueNext { uri: uri.clone(), opts });
                    self.pending.armed = Some((q.id, uri));
                    assert(effects@ == before + rearmed(old(self)@).effects);
                }
            },
            None => {
                if self.pending.armed.is_some() {
                    effects.push(CtlEffect::ClearNext);
                    self.pending.armed = None;
                    assert(effects@ == before + rearmed(old(self)@).effects);
                }
            },
        }
    }

    pub(crate) fn new_items(&mut self, infos: Vec<TrackInfo>) -> (items: Vec<QueueItem>)
        requires
            old(self)@.next_id + infos@.len() <= u64::MAX,
        ensures
            items@ == numbered(infos@, old(self)@.next_id),
            final(self)@ == (CtlView {
                next_id: (old(self)@.next_id + infos@.len()) as u64,
                ..old(self)@
            }),
    {
        let ghost all = infos@;
        let first: u64 = self.next_id;
        let total = infos.len();
        let mut items: Vec<QueueItem> = Vec::new();
        for info in it: infos.into_iter()
            invariant
                it.seq() == all,
                total == all.len(),
                first + total <= u64::MAX,
                items@ == numbered(all, first).subrange(0, it.index()),
        {
            let id: u64 = first + items.len() as u64;
            items.push(QueueItem { id, info });
        }
        self.next_id = first + total as u64;
        assert(items@ == numbered(all, first));
        items
    }

    fn bump(&mut self)
        requires
            old(self)@.queue_rev < u64::MAX,
        ensures
            final(self)@ == (CtlView { queue_rev: (old(self)@.queue_rev + 1) as u64, ..old(self)@ }),
    {
        self.state.queue_rev = self.state.queue_rev + 1;
    }

    fn begin_change(&self) -> (effects: Vec<CtlEffect>)
        ensures
            effects@ == queue_changed(),
    {
        let mut effects: Vec<CtlEffect> = Vec::new();
        effects.push(CtlEffect::Publish(CtlEvent::QueueChanged));
        assert(effects@ == queue_changed());
        effects
    }

    /// Replace the queue and start playing `start`. `seed` drives the shuffle.
    pub fn play_tracks(
        &mut self,
        infos: Vec<TrackInfo>,
        start: usize,
        ctx: PlayContext,
        seed: u64,
    ) -> (effects: Vec<CtlEffect>)
        requires
            ctl_wf(old(self)@),
            has_room(old(self)@, infos@.len()),
        ensures
            final(self)@ == tracks_played(old(self)@, infos@, start, ctx, seed).ctl,
            effects@ == tracks_played(old(self)@, infos@, start, ctx, seed).effects,
            ctl_wf(final(self)@),
    {
        let ghost v = self@;
        let ghost list = infos@;
        if infos.len() == 0 {
            let effects: Vec<CtlEffect> = Vec::new();
            return effects;
        }
        let total = infos.len();
        let mut items = self.new_items(infos);
        proof {
            lemma_numbered(list, v.next_id);
        }
        let start: usize = if start < total {
            start
        } else {
            total - 1
        };
        if self.state.shuffle {
            let ghost all = items@;
            let first = items.remove(start);
            shuffle_in_place(&mut items, seed);
            let ghost rest = items@;
            items.insert(0, first);
            proof {
                assert(items@ == shuffled_queue(all, start as int, seed));
                lemma_first_then_shuffled(all, start as int, seed);
                lemma_permuted_ids(all, items@);
            }
            self.state.queue = items;
            self.state.current = Some(0);
        } else {
            self.state.queue = items;
            self.state.current = Some(start);
        }
        self.state.origin = Origin::Local;
        self.state.context = ctx;
        self.bump();
        self.resume_at = None;
        let mut effects = self.begin_change();
        self.load_current(&mut effects);
        effects
    }

    /// Replace the queue with a shuffled copy and play it.
    pub fn play_shuffled(&mut self, infos: Vec<TrackInfo>, ctx: PlayContext, seed: u64) -> (effects:
        Vec<CtlEffect>)
        requires
            ctl_wf(old(self)@),
            has_room(old(self)@, infos@.len()),
        ensures
            final(self)@ == tracks_played(
                old(self)@,
                shuffled(infos@, seed),
                0,
                ctx,
                seed,
            ).ctl,
            effects@ == tracks_played(old(self)@, shuffled(infos@, seed), 0, ctx, seed).effects,
            ctl_wf(final(self)@),
    {
        let mut infos = infos;
        let ghost all = infos@;
        proof {
            shuffle_is_permutation(all, seed | 1, all.len() - 1);
        }
        shuffle_in_place(&mut infos, seed);
        self.play_tracks(infos, 0, ctx, seed)
    }

    fn insert_infos(&mut self, infos: Vec<TrackInfo>, at: EnqueueAt)
        requires
            ctl_wf(old(self)@),
            has_room(old(self)@, infos@.len()),
            infos@.len() > 0,
        ensures
            final(self)@ == with_items(old(self)@, infos@, at),
            ctl_wf(final(self)@),
    {
        let ghost v = self@;
        let ghost list = infos@;
        let n = self.state.queue.len();
        let pos: usize = match (at, self.state.current) {
            (EnqueueAt::Next, Some(i)) => i + 1,
            _ => n,
        };
        assert(pos == enqueue_position(v, at));
        let items = self.new_items(infos);
        proof {
            lemma_numbered(list, v.next_id);
        }
        splice(&mut self.state.queue, items, pos, Ghost(v.next_id));
        self.bump();
        self.state.origin = Origin::Local;
        if n == 0 {
            self.state.current = Some(0);
        }
    }

    /// Queue items next or at the end.
    pub fn enqueue(&mut self, infos: Vec<TrackInfo>, at: EnqueueAt) -> (effects: Vec<CtlEffect>)
        requires
            ctl_wf(old(self)@),
            has_room(old(self)@, infos@.len()),
        ensures
            final(self)@ == enqueued(old(self)@, infos@, at).ctl,
            effects@ == enqueued(old(self)@, infos@, at).effects,
            ctl_wf(final(self)@),
    {
        if infos.len() == 0 {
            let effects: Vec<CtlEffect> = Vec::new();
            return effects;
        }
        let was_empty = self.state.queue.len() == 0;
        self.insert_infos(infos, at);
        let mut effects = self.begin_change();
        if was_empty && self.state.status == TransportStatus::Stopped {
            self.load_current(&mut effects);
        } else {
            self.rearm(&mut effects);
        }
        effects
    }

    /// Play the item at a position, if there is one.
    pub fn play_index(&mut self, i: usize) -> (effects: Vec<CtlEffect>)
        requires
            ctl_wf(old(self)@),
        ensures
            final(self)@ == index_played(old(self)@, i as int).ctl,
            effects@ == index_played(old(self)@, i as int).effects,
            ctl_wf(final(self)@),
    {
        let mut effects: Vec<CtlEffect> = Vec::new();
        if i >= self.state.queue.len() {
            return effects;
        }
        self.state.current = Some(i);
        self.resume_at = None;
        let ghost before = effects@;
        self.load_current(&mut effects);
        assert(before + loaded(CtlView { current: Some(i), resume_at: None, ..old(self)@ }).effects
            == loaded(CtlView { current: Some(i), resume_at: None, ..old(self)@ }).effects);
        effects
    }

    /// Play the item with an id, if there is one.
    pub fn play_id(&mut self, id: u64) -> (effects: Vec<CtlEffect>)
        requires
            ctl_wf(old(self)@),
        ensures
            match id_from(old(self)@.queue, id, 0) {
                Some(i) => final(self)@ == index_played(old(self)@, i as int).ctl && effects@
                    == index_played(old(self)@, i as int).effects,
                None => final(self)@ == old(self)@ && effects@ == Seq::<CtlEffect>::empty(),
            },
            ctl_wf(final(self)@),
    {
        match find_id(&self.state.queue, id) {
            Some(i) => self.play_index(i),
            None => Vec::new(),
        }
    }

    /// Remove the items with the given ids.
    pub fn remove_ids(&mut self, ids: &[u64]) -> (effects: Vec<CtlEffect>)
        requires
            ctl_wf(old(self)@),
            has_room(old(self)@, 0),
        ensures
            final(self)@ == ids_removed(old(self)@, ids@).ctl,
            effects@ == ids_removed(old(self)@, ids@).effects,
            ctl_wf(final(self)@),
    {
        let ghost v = self@;
        let cur: Option<u64> = match self.state.current_item() {
            Some(q) => Some(q.id),
            None => None,
        };
        let playing = self.state.status != TransportStatus::Stopped;
        let at: usize = match self.state.current {
            Some(i) => i,
            None => 0,
        };
        drop_ids(&mut self.state.queue, ids, Ghost(v.next_id));
        self.bump();
        let mut effects = self.begin_change();
        match cur {
            Some(id) => {
                if contains_id(ids, id) {
                    if at < self.state.queue.len() {
                        self.state.current = Some(at);
                        if playing {
                            self.load_current(&mut effects);
                        } else {
                            self.rearm(&mut effects);
                        }
                    } else {
                        self.state.current = if self.state.queue.len() > 0 {
                            Some(self.state.queue.len() - 1)
                        } else {
                            None
                        };
                        if playing {
                            effects.push(CtlEffect::Stop);
                            assert(effects@ == queue_changed() + seq![CtlEffect::Stop]);
                        } else {
                            self.rearm(&mut effects);
                        }
                    }
                } else {
                    self.state.current = find_id(&self.state.queue, id);
                    self.rearm(&mut effects);
                }
            },
            None => {
                self.rearm(&mut effects);
            },
        }
        effects
    }

    /// Move an item; positions outside the queue change nothing.
    pub fn move_item(&mut self, from: usize, to: usize) -> (effects: Vec<CtlEffect>)
        requires
            ctl_wf(old(self)@),
            has_room(old(self)@, 0),
        ensures
            final(self)@ == item_moved(old(self)@, from as int, to as int).ctl,
            effects@ == item_moved(old(self)@, from as int, to as int).effects,
            ctl_wf(final(self)@),
    {
        let ghost v = self@;
        if from >= self.state.queue.len() || to >= self.state.queue.len() || from == to {
            let effects: Vec<CtlEffect> = Vec::new();
            return effects;
        }
        let cur: Option<u64> = match self.state.current_item() {
            Some(q) => Some(q.id),
            None => None,
        };
        let item = self.state.queue.remove(from);
        self.state.queue.insert(to, item);
        let ghost q = self.state.queue@;
        proof {
            lemma_moved(v.queue, from as int, to as int);
            lemma_permuted_ids(v.queue, q);
        }
        self.state.current = match cur {
            Some(id) => find_id(&self.state.queue, id),
            None => None,
        };
        self.bump();
        let mut effects = self.begin_change();
        self.rearm(&mut effects);
        effects
    }

    /// Drop everything after the current item.
    pub fn clear_upcoming(&mut self) -> (effects: Vec<CtlEffect>)
        requires
            ctl_wf(old(self)@),
            has_room(old(self)@, 0),
        ensures
            final(self)@ == upcoming_cleared(old(self)@).ctl,
            effects@ == upcoming_cleared(old(self)@).effects,
            ctl_wf(final(self)@),
    {
        let n = self.state.queue.len();
        let keep: usize = match self.state.current {
            Some(i) => i + 1,
            None => 0,
        };
        proof {
            lemma_part_ids(self@.queue, 0, keep as int);
        }
        self.state.queue.truncate(keep);
        self.bump();
        let mut effects = self.begin_change();
        self.rearm(&mut effects);
        effects
    }

    /// Stop, and empty the queue.
    pub fn clear_queue(&mut self) -> (effects: Vec<CtlEffect>)
        requires
            ctl_wf(old(self)@),
            has_room(old(self)@, 0),
        ensures
            final(self)@ == queue_cleared(old(self)@).ctl,
            effects@ == queue_cleared(old(self)@).effects,
            ctl_wf(final(self)@),
    {
        let mut effects: Vec<CtlEffect> = Vec::new();
        effects.push(CtlEffect::Stop);
        self.state.queue.clear();
        proof {
            lemma_no_ids(self@.next_id as int);
        }
        self.state.current = None;
        self.state.context = PlayContext::Nowhere;
        self.bump();
        self.state.pos_ms = 0;
        self.state.dur_ms = 0;
        self.resume_at = None;
        effects.push(CtlEffect::Publish(CtlEvent::QueueChanged));
        effects.push(CtlEffect::Publish(CtlEvent::TrackChanged));
        assert(effects@ == queue_cleared(old(self)@).effects);
        effects
    }

    /// Switch shuffle. `seed` drives it.
    pub fn set_shuffle(&mut self, on: bool, seed: u64) -> (effects: Vec<CtlEffect>)
        requires
            ctl_wf(old(self)@),
            has_room(old(self)@, 0),
        ensures
            final(self)@ == shuffle_set(old(self)@, on, seed).ctl,
            effects@ == shuffle_set(old(self)@, on, seed).effects,
            ctl_wf(final(self)@),
    {
        let ghost v = self@;
        if self.state.shuffle == on {
            let effects: Vec<CtlEffect> = Vec::new();
            return effects;
        }
        self.state.shuffle = on;
        let n = self.state.queue.len();
        let from: usize = match self.state.current {
            Some(i) => i + 1,
            None => 0,
        };
        let contextual = match &self.state.context {
            PlayContext::Nowhere => false,
            _ => true,
        };
        if on {
            shuffle_rest(&mut self.state.queue, from, seed);
        } else if contextual && self.state.origin == Origin::Local {
            // Restore a natural order: album and track, else keep as is.
            let cur: Option<u64> = match self.state.current_item() {
                Some(q) => Some(q.id),
                None => None,
            };
            sort_rest(&mut self.state.queue, from);
            self.state.current = match cur {
                Some(id) => find_id(&self.state.queue, id),
                None => None,
            };
        }
        self.bump();
        let mut effects = self.begin_change();
        self.rearm(&mut effects);
        effects
    }

    pub fn set_repeat(&mut self, r: Repeat) -> (effects: Vec<CtlEffect>)
        requires
            ctl_wf(old(self)@),
        ensures
            final(self)@ == repeat_set(old(self)@, r).ctl,
            effects@ == repeat_set(old(self)@, r).effects,
            final(self)@.repeat == r,
            old(self)@.current matches Some(i) ==> (r == Repeat::All && old(self)@.status
                != TransportStatus::Stopped && !old(self)@.queue[i as int].info.live ==> ({
                let after = old(self)@.queue[(i + 1) % (old(self)@.queue.len() as int)];
                final(self)@.armed == Some((after.id, after.info.uri@))
            })),
            ctl_wf(final(self)@),
    {
        proof {
            if let Some(i) = self@.current {
                if r == Repeat::All && self@.status != TransportStatus::Stopped
                    && !self@.queue[i as int].info.live {
                    the_follower_is_armed(CtlView { repeat: r, ..self@ }, i);
                }
            }
        }
        self.state.repeat = r;
        let mut effects = self.begin_change();
        self.rearm(&mut effects);
        effects
    }

    /// A control point took over the renderer (SetAVTransportURI). Its URI
    /// counts, whatever it says of the track; `tags` are those of the file that
    /// the URI names, where it says nothing.
    pub fn set_remote(&mut self, uri: &str, info: Option<TrackInfo>, tags: TagInfo) -> (effects:
        Vec<CtlEffect>)
        requires
            ctl_wf(old(self)@),
            has_room(old(self)@, 1),
        ensures
            ({
                let t = final(self)@.queue[0].info;
                &&& is_remote_info(t, uri@, info, tags)
                &&& final(self)@ == remote_set(old(self)@, t).ctl
                &&& effects@ == remote_set(old(self)@, t).effects
            }),
            ctl_wf(final(self)@),
    {
        let ghost v = self@;
        let info = TrackInfo::for_remote(uri, info, tags);
        let mut one: Vec<TrackInfo> = Vec::new();
        one.push(info);
        assert(one@ == seq![info]);
        let items = self.new_items(one);
        proof {
            lemma_numbered(seq![info], v.next_id);
        }
        self.state.queue = items;
        self.state.current = Some(0);
        self.state.origin = Origin::Remote;
        self.state.context = PlayContext::Nowhere;
        self.bump();
        self.resume_at = None;
        let mut effects = self.begin_change();
        self.load_current(&mut effects);
        effects
    }

    fn push_info(&mut self, t: TrackInfo)
        requires
            ctl_wf(old(self)@),
            old(self)@.next_id < u64::MAX,
        ensures
            final(self)@ == (CtlView {
                queue: old(self)@.queue + numbered(seq![t], old(self)@.next_id),
                next_id: (old(self)@.next_id + 1) as u64,
                ..old(self)@
            }),
            ctl_wf(final(self)@),
    {
        let ghost v = self@;
        let id: u64 = self.next_id;
        self.next_id = id + 1;
        proof {
            lemma_push_ids(v.queue, QueueItem { id, info: t });
        }
        self.state.queue.push(QueueItem { id, info: t });
        assert(self.state.queue@ == v.queue + numbered(seq![t], v.next_id));
    }

    fn shorten(&mut self, info: Option<TrackInfo>)
        requires
            ctl_wf(old(self)@),
            has_room(old(self)@, 1),
        ensures
            final(self)@ == shortened(old(self)@, info),
            ctl_wf(final(self)@),
    {
        let ghost v = self@;
        let n = self.state.queue.len();
        let cur: usize = match self.state.current {
            Some(i) => i,
            None => 0,
        };
        keep_one(&mut self.state.queue, cur);
        assert(self.state.queue@ == current_alone(v));
        if self.state.current.is_some() {
            self.state.current = Some(0);
        }
        assert(ctl_wf(self@));
        if let Some(t) = info {
            self.push_info(t);
        }
        self.bump();
    }

    /// Queue the next track of a remote playlist (SetNextAVTransportURI); an
    /// empty URI clears it.
    pub fn remote_next(&mut self, uri: &str, info: Option<TrackInfo>, tags: TagInfo) -> (effects:
        Vec<CtlEffect>)
        requires
            ctl_wf(old(self)@),
            has_room(old(self)@, 1),
        ensures
            if uri@.len() == 0 {
                &&& final(self)@ == remote_followed(old(self)@, None).ctl
                &&& effects@ == remote_followed(old(self)@, None).effects
            } else {
                let t = final(self)@.queue.last().info;
                &&& is_remote_info(t, uri@, info, tags)
                &&& final(self)@ == remote_followed(old(self)@, Some(t)).ctl
                &&& effects@ == remote_followed(old(self)@, Some(t)).effects
            },
            ctl_wf(final(self)@),
    {
        let next = if uri.is_empty() {
            None
        } else {
            Some(TrackInfo::for_remote(uri, info, tags))
        };
        self.shorten(next);
        let mut effects = self.begin_change();
        self.rearm(&mut effects);
        effects
    }
}

proof fn lemma_first_then_shuffled(all: Seq<QueueItem>, start: int, seed: u64)
    requires
        0 <= start < all.len(),
    ensures
        shuffled_queue(all, start, seed).to_multiset() == all.to_multiset(),
        shuffled_queue(all, start, seed).len() == all.len(),
{
    broadcast use vstd::seq_lib::group_to_multiset_ensures;

    let rest = all.remove(start);
    let mixed = shuffled(rest, seed);
    shuffle_is_permutation(rest, seed | 1, rest.len() - 1);
    let head = seq![all[start]];
    vstd::seq_lib::lemma_multiset_commutative(head, mixed);
    vstd::seq_lib::lemma_multiset_commutative(head, rest);
    assert(head + rest == rest.insert(0, all[start]));
    assert(rest.to_multiset() == all.to_multiset().remove(all[start]));
    assert(all.to_multiset().count(all[start]) > 0) by {
        assert(all.contains(all[start]));
    }
    assert((head + rest).to_multiset() == rest.to_multiset().insert(all[start]));
    assert(all.to_multiset().remove(all[start]).insert(all[start]) =~= all.to_multiset());
}

proof fn lemma_moved(q: Seq<QueueItem>, from: int, to: int)
    requires
        0 <= from < q.len(),
        0 <= to < q.len(),
    ensures
        q.remove(from).insert(to, q[from]).to_multiset() == q.to_multiset(),
        q.remove(from).insert(to, q[from]).len() == q.len(),
{
    broadcast use vstd::seq_lib::group_to_multiset_ensures;

    assert(q.contains(q[from]));
    assert(q.to_multiset().remove(q[from]).insert(q[from]) =~= q.to_multiset());
}

proof fn lemma_rest_permuted(q: Seq<QueueItem>, from: int, mixed: Seq<QueueItem>)
    requires
        0 <= from <= q.len(),
        mixed.to_multiset() == q.subrange(from, q.len() as int).to_multiset(),
    ensures
        (q.subrange(0, from) + mixed).to_multiset() == q.to_multiset(),
        (q.subrange(0, from) + mixed).len() == q.len(),
{
    broadcast use vstd::seq_lib::group_to_multiset_ensures;

    let front = q.subrange(0, from);
    let rest = q.subrange(from, q.len() as int);
    vstd::seq_lib::lemma_multiset_commutative(front, mixed);
    vstd::seq_lib::lemma_multiset_commutative(front, rest);
    assert(front + rest == q);
    assert(mixed.to_multiset().len() == mixed.len());
    assert(rest.to_multiset().len() == rest.len());
}

proof fn lemma_spliced_ids(q: Seq<QueueItem>, fresh: Seq<QueueItem>, pos: int, next_id: u64)
    requires
        0 <= pos <= q.len(),
        ids_differ(q),
        ids_below(q, next_id as int),
        ids_differ(fresh),
        ids_below(fresh, next_id + fresh.len()),
        forall|i: int| 0 <= i < fresh.len() ==> (#[trigger] fresh[i]).id >= next_id,
    ensures
        ids_differ(q.subrange(0, pos) + fresh + q.subrange(pos, q.len() as int)),
        ids_below(
            q.subrange(0, pos) + fresh + q.subrange(pos, q.len() as int),
            next_id + fresh.len(),
        ),
{
    reveal(ids_differ);
    reveal(ids_below);
    let m = q.subrange(0, pos) + fresh + q.subrange(pos, q.len() as int);
    let n = fresh.len() as int;
    assert forall|i: int| 0 <= i < m.len() implies #[trigger] m[i] == (if i < pos {
        q[i]
    } else if i < pos + n {
        fresh[i - pos]
    } else {
        q[i - n]
    }) by {}
    assert forall|i: int| 0 <= i < m.len() implies (#[trigger] m[i]).id < next_id + n by {
        if i < pos {
            assert(q[i].id < next_id);
        } else if i < pos + n {
            assert(fresh[i - pos].id < next_id + n);
        } else {
            assert(q[i - n].id < next_id);
        }
    }
    assert forall|i: int, j: int| 0 <= i < j < m.len() implies (#[trigger] m[i]).id
        != (#[trigger] m[j]).id by {
        let old_i = i < pos || i >= pos + n;
        let old_j = j < pos || j >= pos + n;
        let a = if i < pos {
            i
        } else {
            i - n
        };
        let b = if j < pos {
            j
        } else {
            j - n
        };
        if old_i && old_j {
            assert(q[a].id != q[b].id);
        } else if old_i {
            assert(q[a].id < next_id);
            assert(fresh[j - pos].id >= next_id);
        } else if old_j {
            assert(q[b].id < next_id);
            assert(fresh[i - pos].id >= next_id);
        } else {
            assert(fresh[i - pos].id != fresh[j - pos].id);
        }
    }
}

} // verus!
