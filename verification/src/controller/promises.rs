//! What a listener may rely on of the queue and the transport: each promise is
//! stated over the queue, the position in it and what the engine is told.

use vstd::prelude::*;

use crate::audio::fmt::PcmFormat;
use crate::audio::player::TransportStatus;
use crate::config::ReplayGain;
use crate::controller::bridge::{counts, heard, PlayCounter};
use crate::controller::model::{
    album_order, chain_stub, device_set, enqueued, error_reported, gain_for, id_from, ids_removed,
    index_played, item_moved, kept, next_played, played, prev_played, queue_cleared, quietly,
    rearmed, relative_target, remote_followed, remote_set, repeat_set, shuffle_set, sought,
    started_index, status_reported, toggled, track_started, tracks_played, upcoming_cleared,
    uri_from,
};
use crate::controller::session::{restored, session_of, Session};
use crate::controller::state::{
    ctl_wf, CtlEffect, CtlEvent, CtlView, EnqueueAt, Origin, PlayContext, QueueItem, Repeat,
    TrackInfo,
};
use crate::order::text_le;

verus! {

/// While a track that is not live plays or is paused, the engine is told the
/// item that follows it: with repeat of the whole queue the one behind it, and
/// behind the last one the first; with repeat of one track that track; without
/// repeat the one behind it, and nothing behind the last.
pub proof fn the_follower_is_armed(v: CtlView, i: usize)
    requires
        v.current == Some(i),
        i < v.queue.len(),
        v.status != TransportStatus::Stopped,
        !v.queue[i as int].info.live,
    ensures
        ({
            let n = v.queue.len() as int;
            let armed = rearmed(v).ctl.armed;
            let around = v.queue[(i + 1) % n];
            &&& v.repeat == Repeat::All ==> armed == Some((around.id, around.info.uri@))
            &&& v.repeat == Repeat::One ==> armed == Some(
                (v.queue[i as int].id, v.queue[i as int].info.uri@),
            )
            &&& v.repeat == Repeat::Off && i + 1 < n ==> armed == Some(
                (v.queue[i + 1].id, v.queue[i + 1].info.uri@),
            )
            &&& v.repeat == Repeat::Off && i + 1 == n ==> armed is None
        }),
{
    let n = v.queue.len() as int;
    if i + 1 < n {
        assert((i + 1) % n == i + 1) by (nonlinear_arith)
            requires
                0 <= i + 1 < n,
        ;
    } else {
        assert((i + 1) % n == 0) by (nonlinear_arith)
            requires
                i + 1 == n,
                n > 0,
        ;
    }
}

/// Nothing follows a live stream, and nothing is lined up while stopped.
pub proof fn nothing_is_armed(v: CtlView)
    requires
        v.current matches Some(i) ==> v.status == TransportStatus::Stopped
            || v.queue[i as int].info.live,
    ensures
        rearmed(v).ctl.armed is None,
{
}

/// The engine is told of a new follower exactly once, by its URI; where it
/// knows already it is told nothing, and where nothing follows it is told that.
pub proof fn the_engine_is_told(v: CtlView)
    ensures
        ({
            let o = rearmed(v);
            &&& o.ctl == (CtlView { armed: o.ctl.armed, ..v })
            &&& o.ctl.armed == v.armed ==> o.effects.len() == 0
            &&& o.ctl.armed != v.armed && o.ctl.armed is None ==> o.effects == seq![
                CtlEffect::ClearNext,
            ]
            &&& o.ctl.armed != v.armed ==> (o.ctl.armed matches Some((_, uri)) ==> o.effects.len()
                == 1 && o.effects[0] is EnqueueNext && o.effects[0]->EnqueueNext_uri@ == uri)
            &&& rearmed(o.ctl) == quietly(o.ctl)
        }),
{
}

/// With repeat of the whole queue, the item armed behind the current one is
/// `queue[(current + 1) mod length]`: when the mode is set, and when a track
/// starts.
pub proof fn repeat_goes_round(v: CtlView, i: usize, uri: Seq<char>, format: Option<PcmFormat>)
    requires
        ctl_wf(v),
        v.status != TransportStatus::Stopped,
    ensures
        ({
            let n = v.queue.len() as int;
            let o = repeat_set(v, Repeat::All);
            let s = track_started(v, uri, format);
            &&& v.current == Some(i) && !v.queue[i as int].info.live ==> o.ctl.armed == Some(
                (v.queue[(i + 1) % n].id, v.queue[(i + 1) % n].info.uri@),
            )
            &&& v.repeat == Repeat::All && s.ctl.current == Some(i) && i < n
                && !v.queue[i as int].info.live ==> s.effects.len() > 0
                && s.effects.last() is EnqueueNext && s.effects.last()->EnqueueNext_uri@
                == v.queue[(i + 1) % n].info.uri@ && s.ctl.armed == Some(
                (v.queue[(i + 1) % n].id, v.queue[(i + 1) % n].info.uri@),
            )
        }),
{
    let n = v.queue.len() as int;
    if v.current == Some(i) && !v.queue[i as int].info.live {
        the_follower_is_armed(CtlView { repeat: Repeat::All, ..v }, i);
    }
    let s = track_started(v, uri, format);
    if v.repeat == Repeat::All && s.ctl.current == Some(i) && i < n
        && !v.queue[i as int].info.live {
        let w = crate::controller::model::beginning(v, uri, format);
        the_follower_is_armed(w, i);
        the_engine_is_told(w);
        assert(w.armed is None);
    }
}

/// Whatever changes the queue or a mode leaves the engine knowing what follows.
pub proof fn every_change_is_armed(
    v: CtlView,
    infos: Seq<TrackInfo>,
    at: EnqueueAt,
    from: int,
    to: int,
    r: Repeat,
    on: bool,
    seed: u64,
    info: Option<TrackInfo>,
)
    ensures
        ({
            let o = repeat_set(v, r);
            rearmed(o.ctl) == quietly(o.ctl) && o.ctl.repeat == r
        }),
        ({
            let o = upcoming_cleared(v);
            rearmed(o.ctl) == quietly(o.ctl)
        }),
        ({
            let o = remote_followed(v, info);
            rearmed(o.ctl) == quietly(o.ctl)
        }),
        v.shuffle != on ==> ({
            let o = shuffle_set(v, on, seed);
            rearmed(o.ctl) == quietly(o.ctl) && o.ctl.shuffle == on
        }),
        infos.len() > 0 && v.queue.len() > 0 ==> ({
            let o = enqueued(v, infos, at);
            rearmed(o.ctl) == quietly(o.ctl)
        }),
        from < v.queue.len() && to < v.queue.len() && from != to ==> ({
            let o = item_moved(v, from, to);
            rearmed(o.ctl) == quietly(o.ctl)
        }),
{
}

/// "Previous", within the first three seconds of a track behind the first, makes
/// the item before it current and loads it; later it goes back to the start of
/// the track that plays.
pub proof fn previous_goes_back(v: CtlView, i: usize)
    requires
        v.current == Some(i),
        i < v.queue.len() <= usize::MAX,
    ensures
        ({
            let o = prev_played(v);
            &&& i > 0 && v.pos_ms <= 3000 ==> o.ctl.current == Some((i - 1) as usize)
                && o.ctl.queue == v.queue && o.effects.len() == 2 && o.effects[0] is Load
                && o.effects[0]->Load_uri == v.queue[i - 1].info.uri
            &&& v.pos_ms > 3000 ==> o.ctl.current == Some(i) && o.ctl.queue == v.queue
            &&& v.pos_ms > 3000 && v.status != TransportStatus::Stopped ==> o.ctl.pos_ms == 0
                && o.effects == seq![
                CtlEffect::Seek { ms: 0 },
                CtlEffect::Publish(CtlEvent::Seeked(0)),
            ]
            &&& i == 0 && v.pos_ms <= 3000 && v.repeat == Repeat::All ==> o.ctl.current == Some(
                (v.queue.len() - 1) as usize,
            ) && o.effects.len() == 2 && o.effects[0] is Load && o.effects[0]->Load_uri
                == v.queue.last().info.uri
            &&& i == 0 && v.repeat != Repeat::All ==> o.ctl.current == Some(i)
            &&& i == 0 && v.repeat != Repeat::All && v.status != TransportStatus::Stopped
                ==> o.effects == seq![
                CtlEffect::Seek { ms: 0 },
                CtlEffect::Publish(CtlEvent::Seeked(0)),
            ]
        }),
{
}

/// "Next" loads the item behind the current one; behind the last one it goes
/// round only with repeat of the whole queue, and otherwise changes nothing.
pub proof fn next_goes_on(v: CtlView, i: usize)
    requires
        v.current == Some(i),
        i < v.queue.len(),
        v.queue.len() <= usize::MAX,
    ensures
        ({
            let o = next_played(v);
            &&& i + 1 < v.queue.len() ==> o.ctl.current == Some((i + 1) as usize)
                && o.effects.len() == 2 && o.effects[0] is Load && o.effects[0]->Load_uri
                == v.queue[i + 1].info.uri
            &&& i + 1 == v.queue.len() && v.repeat == Repeat::All ==> o.ctl.current == Some(0usize)
                && o.effects.len() == 2 && o.effects[0] is Load && o.effects[0]->Load_uri
                == v.queue[0].info.uri
            &&& i + 1 == v.queue.len() && v.repeat != Repeat::All ==> o == quietly(v)
            &&& o.ctl.queue == v.queue
        }),
{
}

/// "Next" starts an untouched queue at its first item.
pub proof fn next_starts_the_queue(v: CtlView)
    requires
        v.current is None,
    ensures
        v.queue.len() == 0 ==> next_played(v) == quietly(v),
        v.queue.len() > 0 ==> next_played(v).ctl.current == Some(0usize) && next_played(
            v,
        ).effects.len() == 2 && next_played(v).effects[0] is Load && next_played(
            v,
        ).effects[0]->Load_uri == v.queue[0].info.uri,
{
}

/// "Next" and then "previous", right after the start of the new track, leads back
/// to the item that was current.
pub proof fn previous_undoes_next(v: CtlView, i: usize)
    requires
        v.current == Some(i),
        i + 1 < v.queue.len(),
        v.queue.len() <= usize::MAX,
    ensures
        prev_played(next_played(v).ctl).ctl.current == v.current,
        prev_played(next_played(v).ctl).ctl.queue == v.queue,
{
}

/// A chosen item is loaded from its start: the engine gets its URI, and the
/// position, the length and the title of a stream are those of a fresh track.
pub proof fn a_chosen_item_is_loaded(v: CtlView, i: int)
    requires
        0 <= i <= usize::MAX,
    ensures
        ({
            let o = index_played(v, i);
            if i < v.queue.len() {
                &&& o.ctl.current == Some(i as usize)
                &&& o.ctl.queue == v.queue
                &&& o.ctl.pos_ms == 0
                &&& o.ctl.dur_ms == v.queue[i].info.duration_ms
                &&& o.ctl.stream_title is None
                &&& o.ctl.armed is None
                &&& o.ctl.loading == Some(v.queue[i].id)
                &&& o.ctl.resume_at is None
                &&& o.ctl.status == v.status
                &&& o.effects.len() == 2
                &&& o.effects[0] is Load
                &&& o.effects[0]->Load_uri == v.queue[i].info.uri
                &&& o.effects[1] == CtlEffect::Publish(CtlEvent::TrackChanged)
            } else {
                o == quietly(v)
            }
        }),
{
}

/// No adjustment where ReplayGain is off; the track's own values in track mode;
/// the album's, where it has them, in album mode, and in automatic mode while an
/// album plays in order.
pub proof fn gain_follows_the_mode(context: PlayContext, shuffle: bool, info: TrackInfo)
    ensures
        ({
            let off = gain_for(context, shuffle, ReplayGain::Off, info);
            let track = gain_for(context, shuffle, ReplayGain::Track, info);
            let album = gain_for(context, shuffle, ReplayGain::Album, info);
            let auto = gain_for(context, shuffle, ReplayGain::Auto, info);
            &&& off.gain_db is None && off.peak is None
            &&& track.gain_db == info.rg_track_gain && track.peak == info.rg_track_peak
            &&& info.rg_album_gain is Some ==> album.gain_db == info.rg_album_gain && album.peak
                == info.rg_album_peak
            &&& info.rg_album_gain is None ==> album == track
            &&& (context is Album) && !shuffle ==> auto == album
            &&& !(context is Album) || shuffle ==> auto == track
        }),
{
}

/// What is loaded and what is lined up get the gain of the mode that is set.
pub proof fn what_plays_gets_its_gain(v: CtlView, i: int)
    requires
        0 <= i < v.queue.len(),
        i <= usize::MAX,
    ensures
        index_played(v, i).effects[0]->Load_opts == gain_for(
            v.context,
            v.shuffle,
            v.replaygain,
            v.queue[i].info,
        ),
        v.current == Some(i as usize) && v.repeat == Repeat::One && v.status
            != TransportStatus::Stopped && !v.queue[i].info.live && v.armed is None ==> rearmed(
            v,
        ).effects[0]->EnqueueNext_opts == gain_for(
            v.context,
            v.shuffle,
            v.replaygain,
            v.queue[i].info,
        ),
{
}

/// A new queue holds the tracks in their order and starts where it was asked to,
/// or at the last one.
pub proof fn a_new_queue_plays(
    v: CtlView,
    infos: Seq<TrackInfo>,
    start: usize,
    ctx: PlayContext,
    seed: u64,
)
    requires
        infos.len() > 0,
        infos.len() <= usize::MAX,
        !v.shuffle,
    ensures
        ({
            let o = tracks_played(v, infos, start, ctx, seed);
            let first = if start < infos.len() {
                start as int
            } else {
                infos.len() - 1
            };
            &&& o.ctl.queue.len() == infos.len()
            &&& forall|k: int| 0 <= k < infos.len() ==> (#[trigger] o.ctl.queue[k]).info == infos[k]
            &&& o.ctl.current == Some(first as usize)
            &&& o.ctl.context == ctx
            &&& o.ctl.origin == Origin::Local
            &&& o.ctl.pos_ms == 0
            &&& o.effects.len() == 3
            &&& o.effects[0] == CtlEffect::Publish(CtlEvent::QueueChanged)
            &&& o.effects[1] is Load
            &&& o.effects[1]->Load_uri == infos[first].uri
            &&& o.effects[2] == CtlEffect::Publish(CtlEvent::TrackChanged)
        }),
{
}

/// With shuffle the chosen track comes first, and it plays.
pub proof fn a_shuffled_queue_starts_with_the_chosen(
    v: CtlView,
    infos: Seq<TrackInfo>,
    start: usize,
    ctx: PlayContext,
    seed: u64,
)
    requires
        v.shuffle,
        start < infos.len() <= usize::MAX,
    ensures
        ({
            let o = tracks_played(v, infos, start, ctx, seed);
            &&& o.ctl.current == Some(0usize)
            &&& o.ctl.queue[0].info == infos[start as int]
            &&& o.effects[1] is Load
            &&& o.effects[1]->Load_uri == infos[start as int].uri
        }),
{
}

/// Queued items go right behind the current one, or to the end, in their order;
/// those that were there keep theirs.
pub proof fn queued_items_keep_their_order(
    v: CtlView,
    infos: Seq<TrackInfo>,
    at: EnqueueAt,
    i: usize,
)
    requires
        infos.len() > 0,
        v.current == Some(i),
        i < v.queue.len(),
    ensures
        ({
            let q = enqueued(v, infos, at).ctl.queue;
            let pos = if at == EnqueueAt::Next {
                i + 1
            } else {
                v.queue.len() as int
            };
            &&& q.len() == v.queue.len() + infos.len()
            &&& forall|k: int| 0 <= k < pos ==> #[trigger] q[k] == v.queue[k]
            &&& forall|k: int|
                pos <= k < pos + infos.len() ==> (#[trigger] q[k]).info == infos[k - pos]
            &&& forall|k: int|
                pos + infos.len() <= k < q.len() ==> #[trigger] q[k] == v.queue[k - infos.len()]
        }),
{
}

/// What is queued into an empty queue while stopped starts to play.
pub proof fn an_idle_queue_starts(v: CtlView, infos: Seq<TrackInfo>, at: EnqueueAt)
    requires
        infos.len() > 0,
        v.queue.len() == 0,
        v.current is None,
        v.status == TransportStatus::Stopped,
    ensures
        ({
            let o = enqueued(v, infos, at);
            &&& o.ctl.current == Some(0usize)
            &&& o.ctl.queue.len() == infos.len()
            &&& o.effects.len() == 3
            &&& o.effects[1] is Load
            &&& o.effects[1]->Load_uri == infos[0].uri
        }),
{
}

/// The item that was moved stands where it was moved to, and the others keep
/// their order.
pub proof fn a_moved_item_arrives(v: CtlView, from: int, to: int)
    requires
        0 <= from < v.queue.len(),
        0 <= to < v.queue.len(),
        from != to,
    ensures
        ({
            let q = item_moved(v, from, to).ctl.queue;
            &&& q.len() == v.queue.len()
            &&& q[to] == v.queue[from]
            &&& q.remove(to) == v.queue.remove(from)
        }),
{
}

proof fn lemma_kept_filter(q: Seq<QueueItem>, ids: Seq<u64>, n: nat)
    requires
        n <= q.len(),
    ensures
        kept(q, ids, n) == q.subrange(0, n as int).filter(|it: QueueItem| !ids.contains(it.id)),
    decreases n,
{
    let f = |it: QueueItem| !ids.contains(it.id);
    reveal(Seq::filter);
    if n > 0 {
        lemma_kept_filter(q, ids, (n - 1) as nat);
        assert(q.subrange(0, n as int).drop_last() == q.subrange(0, n - 1));
        assert(q.subrange(0, n as int).last() == q[n - 1]);
    } else {
        assert(q.subrange(0, 0).len() == 0);
    }
}

/// A removal takes away exactly the items with those ids. Where the playing one
/// goes, what then stands in its place is loaded, and behind the end playback
/// stops; an item that is not playing is replaced in silence.
pub proof fn a_removal_takes_exactly_those(v: CtlView, ids: Seq<u64>, i: usize)
    requires
        v.current == Some(i),
        i < v.queue.len() <= usize::MAX,
    ensures
        ({
            let o = ids_removed(v, ids);
            let left = v.queue.filter(|it: QueueItem| !ids.contains(it.id));
            let gone = ids.contains(v.queue[i as int].id);
            let playing = v.status != TransportStatus::Stopped;
            &&& o.ctl.queue == left
            &&& o.effects.len() > 0
            &&& o.effects[0] == CtlEffect::Publish(CtlEvent::QueueChanged)
            &&& gone && i < left.len() ==> o.ctl.current == Some(i)
            &&& gone && i < left.len() && playing ==> o.effects.len() == 3 && o.effects[1] is Load
                && o.effects[1]->Load_uri == left[i as int].info.uri
            &&& gone && i >= left.len() && playing ==> o.effects.len() == 2 && o.effects[1]
                == CtlEffect::Stop
            &&& gone && i >= left.len() && left.len() > 0 ==> o.ctl.current == Some(
                (left.len() - 1) as usize,
            )
            &&& gone && left.len() == 0 ==> o.ctl.current is None
            &&& !gone || !playing ==> forall|k: int|
                0 <= k < o.effects.len() ==> !(#[trigger] o.effects[k] is Load)
        }),
{
    lemma_kept_filter(v.queue, ids, v.queue.len());
    assert(v.queue.subrange(0, v.queue.len() as int) == v.queue);
}

/// What comes after the current item is dropped, and nothing else.
pub proof fn clearing_what_comes_stops_there(v: CtlView, i: usize)
    requires
        v.current == Some(i),
        i < v.queue.len(),
    ensures
        upcoming_cleared(v).ctl.queue == v.queue.subrange(0, i + 1),
        upcoming_cleared(v).ctl.current == Some(i),
        upcoming_cleared(v).ctl.status == v.status,
{
}

/// Clearing the queue stops playback and leaves nothing in it.
pub proof fn clearing_the_queue_stops(v: CtlView)
    ensures
        ({
            let o = queue_cleared(v);
            &&& o.ctl.queue.len() == 0
            &&& o.ctl.current is None
            &&& o.ctl.context is Nowhere
            &&& o.ctl.pos_ms == 0
            &&& o.ctl.dur_ms == 0
            &&& o.ctl.resume_at is None
            &&& o.effects.len() > 0
            &&& o.effects[0] == CtlEffect::Stop
        }),
{
}

/// Switching shuffle keeps the current item and everything before it.
pub proof fn shuffling_starts_behind_the_current(v: CtlView, on: bool, seed: u64, i: usize)
    requires
        v.current == Some(i),
        i < v.queue.len(),
    ensures
        ({
            let q = shuffle_set(v, on, seed).ctl.queue;
            &&& q.len() >= i + 1
            &&& forall|k: int| 0 <= k <= i ==> #[trigger] q[k] == v.queue[k]
            &&& shuffle_set(v, on, seed).ctl.shuffle == on
        }),
{
}

/// A control point's track is the whole queue, belongs to it, and is loaded.
pub proof fn a_remote_track_takes_over(v: CtlView, info: TrackInfo)
    ensures
        ({
            let o = remote_set(v, info);
            &&& o.ctl.queue.len() == 1
            &&& o.ctl.queue[0].info == info
            &&& o.ctl.current == Some(0usize)
            &&& o.ctl.origin == Origin::Remote
            &&& o.ctl.context is Nowhere
            &&& o.effects.len() == 3
            &&& o.effects[1] is Load
            &&& o.effects[1]->Load_uri == info.uri
        }),
{
}

/// A control point's next track stands right behind the current one, and the
/// queue holds only these two.
pub proof fn a_remote_follower_stands_behind(v: CtlView, info: Option<TrackInfo>, i: usize)
    requires
        v.current == Some(i),
        i < v.queue.len(),
    ensures
        ({
            let o = remote_followed(v, info);
            &&& o.ctl.current == Some(0usize)
            &&& o.ctl.queue[0] == v.queue[i as int]
            &&& info matches Some(t) ==> o.ctl.queue.len() == 2 && o.ctl.queue[1].info == t
            &&& info is None ==> o.ctl.queue.len() == 1
        }),
{
}

/// A seek reaches the engine while something is loaded; before that it moves the
/// place where a restored session will start.
pub proof fn a_seek_is_kept(v: CtlView, ms: u64)
    ensures
        ({
            let o = sought(v, ms);
            &&& v.status != TransportStatus::Stopped ==> o.ctl == (CtlView { pos_ms: ms, ..v })
                && o.effects == seq![
                CtlEffect::Seek { ms },
                CtlEffect::Publish(CtlEvent::Seeked(ms)),
            ]
            &&& v.status == TransportStatus::Stopped ==> o.effects.len() == 0
            &&& v.status == TransportStatus::Stopped && v.resume_at is Some ==> o.ctl == (
            CtlView { pos_ms: ms, resume_at: Some(ms), ..v })
            &&& v.status == TransportStatus::Stopped && v.resume_at is None ==> o.ctl == v
        }),
{
}

/// A relative seek goes exactly that far, but not before the start and not past
/// half a second before a known end.
pub proof fn a_relative_seek_stays_inside(pos: int, dur: int, delta: int)
    requires
        pos >= 0,
        dur >= 0,
    ensures
        ({
            let t = relative_target(pos, dur, delta);
            &&& t >= 0
            &&& dur >= 500 ==> t <= dur - 500
            &&& 0 < dur < 500 ==> t == 0
            &&& pos + delta >= 0 && (dur == 0 || pos + delta <= dur - 500) ==> t == pos + delta
            &&& pos + delta < 0 ==> t == 0
            &&& pos + delta > dur - 500 && dur >= 500 ==> t == dur - 500
        }),
{
}

/// Play resumes what is paused, leaves alone what plays, and starts a stopped
/// queue at its current item or its first; a restored session goes on where it
/// was left.
pub proof fn play_goes_on(v: CtlView)
    requires
        ctl_wf(v),
    ensures
        ({
            let o = played(v);
            let i = match v.current {
                Some(i) => i as int,
                None => 0,
            };
            &&& v.status == TransportStatus::Paused ==> o.ctl == v && o.effects == seq![
                CtlEffect::Resume,
            ]
            &&& v.status == TransportStatus::Playing ==> o == quietly(v)
            &&& v.status == TransportStatus::Stopped && v.queue.len() == 0 ==> o == quietly(v)
            &&& v.status == TransportStatus::Stopped && v.queue.len() > 0 ==> {
                &&& o.ctl.current == Some(i as usize)
                &&& o.ctl.queue == v.queue
                &&& o.effects.len() == 2
                &&& o.effects[0] is Load
                &&& o.effects[0]->Load_uri == v.queue[i].info.uri
                &&& o.ctl.resume_at is None
                &&& v.resume_at matches Some(pos) ==> o.ctl.seek_on_start == Some(
                    (v.queue[i].id, pos),
                )
                &&& v.resume_at is None ==> o.ctl.seek_on_start == v.seek_on_start
            }
        }),
{
}

/// The play button pauses what plays, and else does what play does.
pub proof fn the_button_toggles(v: CtlView)
    ensures
        v.status == TransportStatus::Playing ==> toggled(v).ctl == v && toggled(v).effects == seq![
            CtlEffect::Pause,
        ],
        v.status != TransportStatus::Playing ==> toggled(v) == played(v),
{
}

/// Another device gets the volume, the mute and the preamp, and what played goes
/// on there from its place.
pub proof fn another_device_goes_on(v: CtlView, name: String)
    requires
        name@ != v.device_name,
        ctl_wf(v),
    ensures
        ({
            let o = device_set(v, name);
            &&& o.effects.len() >= 5
            &&& o.effects[0] == CtlEffect::Stop
            &&& o.effects[1] == CtlEffect::Respawn { device: name }
            &&& o.effects[2] == CtlEffect::SetVolume { percent: v.volume }
            &&& o.effects[3] == CtlEffect::SetMute { muted: v.muted }
            &&& o.effects[4] == CtlEffect::SetGain { db: v.rg_preamp }
            &&& o.ctl.device_name == name@
            &&& o.ctl.queue == v.queue
            &&& o.ctl.current == v.current
            &&& v.current matches Some(i) ==> (v.status != TransportStatus::Stopped
                ==> o.effects.len() == 7 && o.effects[5] is Load && o.effects[5]->Load_uri
                == v.queue[i as int].info.uri && o.ctl.seek_on_start == Some(
                (v.queue[i as int].id, v.pos_ms),
            ))
            &&& v.status == TransportStatus::Stopped ==> o.effects.len() == 5
        }),
{
}

/// A track that starts is the one that was lined up, where it has its URI; a seek
/// that waited for it is applied before anything else; failures are forgotten.
pub proof fn a_started_track_is_current(
    v: CtlView,
    k: int,
    uri: Seq<char>,
    format: Option<PcmFormat>,
)
    requires
        ctl_wf(v),
        v.queue.len() <= usize::MAX,
        0 <= k < v.queue.len(),
        v.armed == Some((v.queue[k].id, uri)),
    ensures
        ({
            let o = track_started(v, uri, format);
            &&& o.ctl.current == Some(k as usize)
            &&& o.ctl.pos_ms == 0
            &&& o.ctl.dur_ms == v.queue[k].info.duration_ms
            &&& o.ctl.stream_title is None
            &&& o.ctl.failures == 0
            &&& o.ctl.loading is None
            &&& o.ctl.seek_on_start is None
            &&& format is Some ==> o.ctl.chain.format == format
            &&& v.seek_on_start matches Some((id, pos)) ==> (id == v.queue[k].id && pos > 0
                ==> o.effects.len() > 1 && o.effects[0] == (CtlEffect::Seek { ms: pos })
                && o.effects[1] == CtlEffect::Publish(CtlEvent::TrackChanged))
            &&& !(v.seek_on_start matches Some((id, pos)) && id == v.queue[k].id && pos > 0)
                ==> o.effects.len() > 0 && o.effects[0] == CtlEffect::Publish(
                CtlEvent::TrackChanged,
            )
        }),
{
    crate::controller::laws::lemma_id_from(v.queue, k, 0);
}

/// A stop reported by the engine puts the position back and forgets what was
/// lined up; any other status lines up what follows. No report changes nothing.
pub proof fn a_status_is_passed_on(v: CtlView, status: TransportStatus)
    ensures
        ({
            let o = status_reported(v, status);
            &&& o.ctl.status == status
            &&& o.ctl.queue == v.queue
            &&& o.ctl.current == v.current
            &&& v.status == status ==> o == quietly(v)
            &&& v.status != status ==> o.effects.len() > 0 && o.effects[0] == CtlEffect::Publish(
                CtlEvent::StatusChanged(status),
            )
            &&& v.status != status && status == TransportStatus::Stopped ==> o.ctl.pos_ms == 0
                && o.ctl.armed is None && o.effects.len() == 1
            &&& v.status != status && status != TransportStatus::Stopped ==> rearmed(o.ctl)
                == quietly(o.ctl)
        }),
{
}

/// A track that fails to open is told, and skipped for the one behind it, up to
/// five times in a row; an error of a track that plays skips nothing.
pub proof fn a_failing_track_is_skipped(v: CtlView, message: String, i: usize)
    requires
        v.current == Some(i),
        i < v.queue.len() <= usize::MAX,
    ensures
        ({
            let o = error_reported(v, message);
            let skips = v.loading is Some && v.failures < 5 && i + 1 < v.queue.len();
            &&& o.effects.len() > 0
            &&& o.effects[0] == CtlEffect::Publish(CtlEvent::Error(message))
            &&& skips ==> o.ctl.current == Some((i + 1) as usize) && o.effects.len() == 3
                && o.effects[1] is Load && o.effects[1]->Load_uri == v.queue[i + 1].info.uri
                && o.ctl.failures == v.failures + 1
            &&& !skips ==> o.ctl.current == Some(i) && o.effects.len() == 1
            &&& v.failures >= 5 ==> o.ctl.failures == v.failures
        }),
{
}

/// A play counts once, for a track of more than half a minute, when half of it
/// or four minutes have been heard.
pub proof fn a_play_counts_by_what_was_heard(c: PlayCounter, dur: u64)
    ensures
        counts(c, dur) <==> !c.counted && dur > 30_000 && (c.listened_ms >= 240_000
            || c.listened_ms + c.listened_ms + 1 >= dur),
{
}

/// What is heard between two reports is the way forward between them, where that
/// is less than two seconds; a jump in either direction adds nothing.
pub proof fn only_steady_progress_is_heard(c: PlayCounter, pos: u64)
    requires
        c.listened_ms + 2_000 <= u64::MAX,
    ensures
        ({
            let h = heard(c, pos);
            &&& h.last_pos == pos
            &&& h.counted == c.counted
            &&& c.last_pos <= pos < c.last_pos + 2_000 ==> h.listened_ms == c.listened_ms + (pos
                - c.last_pos)
            &&& pos < c.last_pos || pos >= c.last_pos + 2_000 ==> h.listened_ms == c.listened_ms
        }),
{
}

/// A restored session has the saved tracks, place, volume and modes, is silent,
/// and will go on from the saved position.
pub proof fn a_restored_session_is_the_saved_one(v: CtlView, s: Session, k: int)
    requires
        v.next_id + s.queue@.len() <= u64::MAX,
        0 <= k < s.queue@.len(),
    ensures
        ({
            let o = restored(v, s);
            &&& o.ctl.queue.len() == s.queue@.len()
            &&& o.ctl.queue[k].info == s.queue@[k]
            &&& s.current == Some(k as usize) && k <= usize::MAX ==> o.ctl.current == s.current
                && o.ctl.dur_ms == s.queue@[k].duration_ms
            &&& s.current matches Some(i) ==> (i >= s.queue@.len() ==> o.ctl.current is None)
            &&& s.current is None ==> o.ctl.current is None
            &&& o.ctl.pos_ms == s.pos_ms
            &&& o.ctl.resume_at == Some(s.pos_ms)
            &&& s.volume <= 100 ==> o.ctl.volume == s.volume
            &&& s.volume > 100 ==> o.ctl.volume == 100
            &&& o.ctl.shuffle == s.shuffle
            &&& o.ctl.repeat == s.repeat
            &&& o.ctl.context == s.context
            &&& o.ctl.status == v.status
            &&& o.effects.len() > 0
            &&& o.effects[0] == (CtlEffect::SetVolume { percent: o.ctl.volume })
            &&& forall|j: int| 0 <= j < o.effects.len() ==> !(#[trigger] o.effects[j] is Load)
        }),
{
}

/// An item is found by its id where the first one with it stands, and only if
/// there is one.
pub proof fn an_id_is_found(q: Seq<QueueItem>, id: u64, i: int)
    requires
        q.len() <= usize::MAX,
        0 <= i <= q.len(),
    ensures
        id_from(q, id, i) matches Some(k) ==> i <= k < q.len() && q[k as int].id == id && forall|
            j: int,
        |
            i <= j < k ==> (#[trigger] q[j]).id != id,
        id_from(q, id, i) is None ==> forall|j: int| i <= j < q.len() ==> (#[trigger] q[j]).id != id,
    decreases q.len() - i,
{
    if i < q.len() && q[i].id != id {
        an_id_is_found(q, id, i + 1);
    }
}

/// An item is found by its URI where the first one with it stands, and only if
/// there is one.
pub proof fn a_uri_is_found(q: Seq<QueueItem>, uri: Seq<char>, i: int)
    requires
        q.len() <= usize::MAX,
        0 <= i <= q.len(),
    ensures
        uri_from(q, uri, i) matches Some(k) ==> i <= k < q.len() && q[k as int].info.uri@ == uri
            && forall|j: int| i <= j < k ==> (#[trigger] q[j]).info.uri@ != uri,
        uri_from(q, uri, i) is None ==> forall|j: int|
            i <= j < q.len() ==> (#[trigger] q[j]).info.uri@ != uri,
    decreases q.len() - i,
{
    if i < q.len() && q[i].info.uri@ != uri {
        a_uri_is_found(q, uri, i + 1);
    }
}

/// A track that starts and was not lined up is the current one where that has its
/// URI, and else the first that has it.
pub proof fn a_started_track_is_found(v: CtlView, uri: Seq<char>)
    requires
        ctl_wf(v),
        v.armed is None,
    ensures
        v.current matches Some(i) ==> (v.queue[i as int].info.uri@ == uri ==> started_index(v, uri)
            == Some(i)),
        (v.current matches Some(i) ==> v.queue[i as int].info.uri@ != uri) ==> started_index(v, uri)
            == uri_from(v.queue, uri, 0),
{
}

/// In its natural order a queue goes by album, and within an album by the number
/// of the track; a track without a number comes before those that have one.
pub proof fn the_natural_order_is_by_track(a: QueueItem, b: QueueItem)
    ensures
        ({
            let leq = album_order();
            &&& (a.info.album_id matches Some(x) && b.info.album_id matches Some(y) && x@ == y@)
                ==> {
                &&& (a.info.track_no matches Some(m) && b.info.track_no matches Some(n)) ==> (leq(
                    a,
                    b,
                ) <==> a.info.track_no->0 <= b.info.track_no->0)
                &&& a.info.track_no is None ==> leq(a, b)
                &&& a.info.track_no is Some && b.info.track_no is None ==> !leq(a, b)
            }
            &&& (a.info.album_id matches Some(x) && b.info.album_id matches Some(y) && x@ != y@)
                ==> (leq(a, b) <==> text_le(a.info.album_id->0@, b.info.album_id->0@))
        }),
{
}

/// Each change of the queue gets a number of its own, one above the last, so that
/// whoever shows the queue sees that it has changed.
pub proof fn each_change_of_the_queue_is_numbered(
    v: CtlView,
    infos: Seq<TrackInfo>,
    start: usize,
    ctx: PlayContext,
    seed: u64,
    at: EnqueueAt,
    ids: Seq<u64>,
    from: int,
    to: int,
    info: Option<TrackInfo>,
    t: TrackInfo,
    s: Session,
)
    requires
        v.queue_rev < u64::MAX,
        infos.len() > 0,
    ensures
        tracks_played(v, infos, start, ctx, seed).ctl.queue_rev == v.queue_rev + 1,
        enqueued(v, infos, at).ctl.queue_rev == v.queue_rev + 1,
        ids_removed(v, ids).ctl.queue_rev == v.queue_rev + 1,
        from < v.queue.len() && to < v.queue.len() && from != to ==> item_moved(
            v,
            from,
            to,
        ).ctl.queue_rev == v.queue_rev + 1,
        upcoming_cleared(v).ctl.queue_rev == v.queue_rev + 1,
        queue_cleared(v).ctl.queue_rev == v.queue_rev + 1,
        shuffle_set(v, !v.shuffle, seed).ctl.queue_rev == v.queue_rev + 1,
        remote_set(v, t).ctl.queue_rev == v.queue_rev + 1,
        remote_followed(v, info).ctl.queue_rev == v.queue_rev + 1,
        restored(v, s).ctl.queue_rev == v.queue_rev + 1,
        next_played(v).ctl.queue_rev == v.queue_rev,
        prev_played(v).ctl.queue_rev == v.queue_rev,
        played(v).ctl.queue_rev == v.queue_rev,
{
}

/// New items get ids that no item had before, one after the other.
pub proof fn new_items_get_new_ids(v: CtlView, infos: Seq<TrackInfo>, at: EnqueueAt, k: int)
    requires
        0 <= k < infos.len(),
        v.next_id + infos.len() <= u64::MAX,
        v.current is None,
    ensures
        enqueued(v, infos, at).ctl.queue[v.queue.len() + k].id == v.next_id + k,
        enqueued(v, infos, at).ctl.queue[v.queue.len() + k].info == infos[k],
        enqueued(v, infos, at).ctl.next_id == v.next_id + infos.len(),
{
}

/// A saved session is the queue, the place in it, the volume and the modes.
pub proof fn a_saved_session_is_the_state(v: CtlView, s: Session, k: int)
    requires
        session_of(v, s),
        0 <= k < v.queue.len(),
    ensures
        s.queue@.len() == v.queue.len(),
        s.queue@[k] == v.queue[k].info,
        s.current == v.current,
        s.pos_ms == v.pos_ms,
        s.volume == v.volume,
        s.shuffle == v.shuffle,
        s.repeat == v.repeat,
        s.context == v.context,
{
}

/// What belongs to this program is its own queue, whatever a control point did
/// before.
pub proof fn a_local_queue_is_local(
    v: CtlView,
    infos: Seq<TrackInfo>,
    start: usize,
    ctx: PlayContext,
    seed: u64,
    at: EnqueueAt,
)
    requires
        infos.len() > 0,
    ensures
        tracks_played(v, infos, start, ctx, seed).ctl.origin == Origin::Local,
        tracks_played(v, infos, start, ctx, seed).ctl.context == ctx,
        tracks_played(v, infos, start, ctx, seed).ctl.resume_at is None,
        enqueued(v, infos, at).ctl.origin == Origin::Local,
        tracks_played(v, Seq::empty(), start, ctx, seed) == quietly(v),
        enqueued(v, Seq::empty(), at) == quietly(v),
{
}

/// Until an engine reports, the chain is that of the device at full volume.
pub proof fn a_new_chain_is_untouched(device: Seq<char>)
    ensures
        chain_stub(device).device == device,
        chain_stub(device).volume == 100,
        chain_stub(device).format is None,
        chain_stub(device).container is None,
        chain_stub(device).device_kind == crate::audio::device::kind_of(device),
        chain_stub(device).bit_perfect <==> chain_stub(device).device_kind
            != crate::audio::device::DeviceKind::Virtual,
{
}

/// On another device the chain is that of the device, and what was pending is
/// forgotten.
pub proof fn another_device_starts_afresh(v: CtlView, name: String)
    requires
        name@ != v.device_name,
        v.status == TransportStatus::Stopped,
    ensures
        ({
            let w = device_set(v, name).ctl;
            &&& w.chain == chain_stub(name@)
            &&& w.status == TransportStatus::Stopped
            &&& w.armed is None
            &&& w.loading is None
            &&& w.seek_on_start is None
            &&& w.failures == 0
            &&& w.volume == v.volume
            &&& w.repeat == v.repeat
            &&& w.shuffle == v.shuffle
        }),
        device_set(v, name).ctl.pos_ms == v.pos_ms,
{
}

/// The device that is in use already is not switched to.
pub proof fn the_same_device_stays(v: CtlView, name: String)
    requires
        name@ == v.device_name,
    ensures
        device_set(v, name) == quietly(v),
{
}

/// What a library track is in the queue says what the track says, each thing in
/// its place.
pub proof fn a_queued_track_says_what_it_is(t: crate::library::tracks::Track, r: TrackInfo)
    requires
        call_ensures(TrackInfo::from_track, (&t,), r),
    ensures
        r.uri == t.uri,
        r.path == Some(t.path),
        r.title == t.title,
        r.artist == t.artist,
        r.album == t.album,
        r.album_artist == t.album_artist,
        r.album_id == Some(t.album_id),
        r.duration_ms == t.duration_ms,
        r.cover == Some(t.path),
        r.track_no == t.track,
        r.year == t.year,
        r.genre == t.genre,
        r.sample_rate == t.sample_rate,
        r.bits == t.bits,
        r.codec == t.codec,
        r.rg_track_gain == t.rg_track_gain,
        r.rg_track_peak == t.rg_track_peak,
        r.rg_album_gain == t.rg_album_gain,
        r.rg_album_peak == t.rg_album_peak,
        r.mb_album_id == t.mb_album_id,
        !r.live,
{
}

/// "Next" is offered exactly where it leads somewhere.
pub proof fn next_is_offered_where_it_leads(
    st: crate::controller::state::CtlState,
    v: CtlView,
    i: usize,
    r: bool,
)
    requires
        call_ensures(crate::controller::state::CtlState::has_next, (&st,), r),
        st.current == Some(i),
        i < st.queue@.len() <= usize::MAX,
        v.queue == st.queue@,
        v.current == st.current,
        v.repeat == st.repeat,
    ensures
        r <==> next_played(v).effects.len() > 0,
{
}

/// The repeat modes come in turn: none, the whole queue, one track.
pub proof fn repeat_modes_come_in_turn(r: Repeat, s: Repeat)
    requires
        call_ensures(Repeat::cycle, (r,), s),
    ensures
        r == Repeat::Off ==> s == Repeat::All,
        r == Repeat::All ==> s == Repeat::One,
        r == Repeat::One ==> s == Repeat::Off,
{
}

/// Of a bare URI of a file its tags are known, of any other its name.
pub proof fn a_bare_uri_is_known_by_its_tags(
    r: TrackInfo,
    uri: Seq<char>,
    tags: crate::library::meta::TagInfo,
)
    requires
        crate::controller::state::is_uri_info(r, uri, tags),
    ensures
        r.uri@ == uri,
        !r.live,
        crate::uri::path_of(uri) matches Some(p) ==> {
            &&& r.path matches Some(q) && q@ == p
            &&& r.artist == tags.artist
            &&& r.album == tags.album
            &&& r.album_artist == tags.album_artist
            &&& r.duration_ms == tags.duration_ms
            &&& r.track_no == tags.track
            &&& r.year == tags.year
            &&& tags.title matches Some(t) ==> r.title@ == t@
        },
        crate::uri::path_of(uri) is None ==> r.path is None && r.artist is None && r.album is None
            && r.album_artist is None && r.duration_ms == 0 && r.title@
            == crate::uri::percent_decoded(crate::controller::state::name_in(uri)),
{
}

/// What a control point says of its track counts, and so does its URI.
pub proof fn a_control_point_is_believed(
    r: TrackInfo,
    uri: Seq<char>,
    i: TrackInfo,
    tags: crate::library::meta::TagInfo,
)
    requires
        crate::controller::state::is_remote_info(r, uri, Some(i), tags),
    ensures
        r.uri@ == uri,
        r.title == i.title,
        r.artist == i.artist,
        r.album == i.album,
        r.album_artist == i.album_artist,
        r.duration_ms == i.duration_ms,
        r.cover == i.cover,
        r.live == i.live,
{
}

proof fn lemma_no_query(uri: Seq<char>, i: int)
    requires
        0 <= i <= uri.len(),
        forall|j: int| 0 <= j < uri.len() ==> uri[j] != '?' && uri[j] != '#',
    ensures
        crate::controller::state::query_start(uri, i) == uri.len(),
    decreases uri.len() - i,
{
    if i < uri.len() {
        lemma_no_query(uri, i + 1);
    }
}

proof fn lemma_last_slash(s: Seq<char>, at: int, n: int)
    requires
        0 <= at < n <= s.len(),
        s[at] == '/',
        forall|j: int| at < j < n ==> s[j] != '/',
    ensures
        crate::controller::state::after_slash(s, n) == at + 1,
    decreases n,
{
    if n - 1 > at {
        lemma_last_slash(s, at, n - 1);
    }
}

/// The name in a URI is what stands behind its last slash.
pub proof fn the_name_stands_behind_the_last_slash(base: Seq<char>, name: Seq<char>)
    requires
        name.len() > 0,
        forall|j: int| 0 <= j < name.len() ==> name[j] != '/' && name[j] != '?' && name[j] != '#',
        forall|j: int| 0 <= j < base.len() ==> base[j] != '?' && base[j] != '#',
    ensures
        crate::controller::state::name_in(base + seq!['/'] + name) == name,
{
    let uri = base + seq!['/'] + name;
    let at = base.len() as int;
    assert forall|j: int| 0 <= j < uri.len() implies uri[j] != '?' && uri[j] != '#' by {
        if j > at {
            assert(uri[j] == name[j - at - 1]);
        } else if j < at {
            assert(uri[j] == base[j]);
        }
    }
    lemma_no_query(uri, 0);
    assert(uri.subrange(0, uri.len() as int) == uri);
    assert forall|j: int| at < j < uri.len() implies uri[j] != '/' by {
        assert(uri[j] == name[j - at - 1]);
    }
    lemma_last_slash(uri, at, uri.len() as int);
    assert(uri.subrange(at + 1, uri.len() as int) == name);
}

} // verus!
