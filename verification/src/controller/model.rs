//! What the controller's operations do.

use vstd::prelude::*;

use crate::audio::device::{kind_of, DeviceKind};
use crate::audio::fmt::PcmFormat;
use crate::audio::gain::{no_opts, TrackOpts};
use crate::audio::player::{ChainView, TransportStatus};
use crate::config::ReplayGain;
use crate::controller::state::{
    CtlEffect, CtlEvent, CtlView, EnqueueAt, Origin, PlayContext, QueueItem, Repeat, TrackInfo,
};
use crate::order::{opt_num_le, opt_text_le, shuffled, sort_stable};
use crate::text::text_opt;

verus! {

/// The controller after some effects.
pub struct CtlOut {
    pub ctl: CtlView,
    pub effects: Seq<CtlEffect>,
}

/// Nothing to do but the change.
pub open spec fn quietly(ctl: CtlView) -> CtlOut {
    CtlOut { ctl, effects: Seq::empty() }
}

/// `o` after some effects.
pub open spec fn then_out(effects: Seq<CtlEffect>, o: CtlOut) -> CtlOut {
    CtlOut { ctl: o.ctl, effects: effects + o.effects }
}

pub open spec fn queue_changed() -> Seq<CtlEffect> {
    seq![CtlEffect::Publish(CtlEvent::QueueChanged)]
}

/// The current item.
pub open spec fn item_at(v: CtlView) -> Option<QueueItem> {
    match v.current {
        Some(i) => if i < v.queue.len() {
            Some(v.queue[i as int])
        } else {
            None
        },
        None => None,
    }
}

/// Where the item with an id stands, from `i` on.
pub open spec fn id_from(q: Seq<QueueItem>, id: u64, i: int) -> Option<usize>
    decreases q.len() - i,
{
    if i < 0 || i >= q.len() {
        None
    } else if q[i].id == id {
        Some(i as usize)
    } else {
        id_from(q, id, i + 1)
    }
}

/// Where the first item with a URI stands, from `i` on.
pub open spec fn uri_from(q: Seq<QueueItem>, uri: Seq<char>, i: int) -> Option<usize>
    decreases q.len() - i,
{
    if i < 0 || i >= q.len() {
        None
    } else if q[i].info.uri@ == uri {
        Some(i as usize)
    } else {
        uri_from(q, uri, i + 1)
    }
}

/// Where the current item stands in a queue.
pub open spec fn current_in(v: CtlView, q: Seq<QueueItem>) -> Option<usize> {
    match item_at(v) {
        Some(it) => id_from(q, it.id, 0),
        None => None,
    }
}

/// The position behind the current item; the front where there is none.
pub open spec fn upcoming(v: CtlView) -> int {
    match v.current {
        Some(i) => i + 1,
        None => 0,
    }
}

/// ReplayGain for an item; album gain only when the album plays in order.
pub open spec fn gain_for(
    context: PlayContext,
    shuffle: bool,
    mode: ReplayGain,
    info: TrackInfo,
) -> TrackOpts {
    let album = match mode {
        ReplayGain::Off | ReplayGain::Track => false,
        ReplayGain::Album => true,
        ReplayGain::Auto => context is Album && !shuffle,
    };
    if mode == ReplayGain::Off {
        no_opts()
    } else if album && info.rg_album_gain is Some {
        TrackOpts { gain_db: info.rg_album_gain, peak: info.rg_album_peak }
    } else {
        TrackOpts { gain_db: info.rg_track_gain, peak: info.rg_track_peak }
    }
}

/// The current item is handed to the engine.
pub open spec fn loaded(v: CtlView) -> CtlOut {
    let fresh = CtlView {
        pos_ms: 0,
        stream_title: None,
        dur_ms: match item_at(v) {
            Some(it) => it.info.duration_ms,
            None => 0,
        },
        ..v
    };
    match item_at(v) {
        None => quietly(fresh),
        Some(it) => CtlOut {
            ctl: CtlView { armed: None, loading: Some(it.id), ..fresh },
            effects: seq![
                CtlEffect::Load {
                    uri: it.info.uri,
                    opts: gain_for(v.context, v.shuffle, v.replaygain, it.info),
                },
                CtlEffect::Publish(CtlEvent::TrackChanged),
            ],
        },
    }
}

/// The item that should follow the current one: none after a live stream or
/// while stopped.
pub open spec fn successor(v: CtlView) -> Option<QueueItem> {
    match v.current {
        None => None,
        Some(i) => if v.status == TransportStatus::Stopped || v.queue[i as int].info.live {
            None
        } else {
            match v.repeat {
                Repeat::One => Some(v.queue[i as int]),
                Repeat::All => if i + 1 < v.queue.len() {
                    Some(v.queue[i + 1])
                } else {
                    Some(v.queue[0])
                },
                Repeat::Off => if i + 1 < v.queue.len() {
                    Some(v.queue[i + 1])
                } else {
                    None
                },
            }
        },
    }
}

/// The engine is told what follows, unless it knows already.
pub open spec fn rearmed(v: CtlView) -> CtlOut {
    let want = match successor(v) {
        Some(q) => Some((q.id, q.info.uri@)),
        None => None,
    };
    if v.armed == want {
        quietly(v)
    } else {
        CtlOut {
            ctl: CtlView { armed: want, ..v },
            effects: match successor(v) {
                Some(q) => seq![
                    CtlEffect::EnqueueNext {
                        uri: q.info.uri,
                        opts: gain_for(v.context, v.shuffle, v.replaygain, q.info),
                    },
                ],
                None => seq![CtlEffect::ClearNext],
            },
        }
    }
}

// ---------------------------------------------------------------------------
// The queue
// ---------------------------------------------------------------------------

/// Items with ids of their own.
pub open spec fn numbered(infos: Seq<TrackInfo>, next_id: u64) -> Seq<QueueItem> {
    Seq::new(
        infos.len(),
        |i: int| QueueItem { id: (next_id + i) as u64, info: infos[i] },
    )
}

/// A queue that starts with the item at `start`, the others shuffled.
pub open spec fn shuffled_queue(items: Seq<QueueItem>, start: int, seed: u64) -> Seq<QueueItem> {
    seq![items[start]] + shuffled(items.remove(start), seed)
}

/// The queue is replaced, and `start` plays.
pub open spec fn tracks_played(
    v: CtlView,
    infos: Seq<TrackInfo>,
    start: usize,
    ctx: PlayContext,
    seed: u64,
) -> CtlOut {
    if infos.len() == 0 {
        quietly(v)
    } else {
        let items = numbered(infos, v.next_id);
        let first = if start < items.len() {
            start as int
        } else {
            items.len() - 1
        };
        then_out(
            queue_changed(),
            loaded(
                CtlView {
                    queue: if v.shuffle {
                        shuffled_queue(items, first, seed)
                    } else {
                        items
                    },
                    current: Some(
                        if v.shuffle {
                            0
                        } else {
                            first as usize
                        },
                    ),
                    origin: Origin::Local,
                    context: ctx,
                    queue_rev: (v.queue_rev + 1) as u64,
                    next_id: (v.next_id + infos.len()) as u64,
                    resume_at: None,
                    ..v
                },
            ),
        )
    }
}

/// Where queued items go: right behind the current one, or at the end.
pub open spec fn enqueue_position(v: CtlView, at: EnqueueAt) -> int {
    match (at, v.current) {
        (EnqueueAt::Next, Some(i)) => if i + 1 <= v.queue.len() {
            i + 1
        } else {
            v.queue.len() as int
        },
        _ => v.queue.len() as int,
    }
}

/// The queue with items put into it.
pub open spec fn with_items(v: CtlView, infos: Seq<TrackInfo>, at: EnqueueAt) -> CtlView {
    let pos = enqueue_position(v, at);
    CtlView {
        queue: v.queue.subrange(0, pos) + numbered(infos, v.next_id) + v.queue.subrange(
            pos,
            v.queue.len() as int,
        ),
        current: if v.queue.len() == 0 {
            Some(0)
        } else {
            v.current
        },
        origin: Origin::Local,
        queue_rev: (v.queue_rev + 1) as u64,
        next_id: (v.next_id + infos.len()) as u64,
        ..v
    }
}

/// Items are queued; an idle empty queue starts to play.
pub open spec fn enqueued(v: CtlView, infos: Seq<TrackInfo>, at: EnqueueAt) -> CtlOut {
    if infos.len() == 0 {
        quietly(v)
    } else {
        then_out(
            queue_changed(),
            if v.queue.len() == 0 && v.status == TransportStatus::Stopped {
                loaded(with_items(v, infos, at))
            } else {
                rearmed(with_items(v, infos, at))
            },
        )
    }
}

/// The item at a position plays.
pub open spec fn index_played(v: CtlView, i: int) -> CtlOut {
    if i >= v.queue.len() {
        quietly(v)
    } else {
        loaded(CtlView { current: Some(i as usize), resume_at: None, ..v })
    }
}

/// The first `n` items without those that have one of the ids.
pub open spec fn kept(q: Seq<QueueItem>, ids: Seq<u64>, n: nat) -> Seq<QueueItem>
    decreases n,
{
    if n == 0 || n > q.len() {
        Seq::empty()
    } else if ids.contains(q[n - 1].id) {
        kept(q, ids, (n - 1) as nat)
    } else {
        kept(q, ids, (n - 1) as nat).push(q[n - 1])
    }
}

/// Items are removed. Where the playing one goes away, what then stands at its
/// position plays; behind the end of the queue playback stops.
pub open spec fn ids_removed(v: CtlView, ids: Seq<u64>) -> CtlOut {
    let queue = kept(v.queue, ids, v.queue.len());
    let playing = v.status != TransportStatus::Stopped;
    let w = CtlView { queue, queue_rev: (v.queue_rev + 1) as u64, ..v };
    match item_at(v) {
        Some(it) => if ids.contains(it.id) {
            let at = v.current->0;
            if at < queue.len() {
                let x = CtlView { current: Some(at), ..w };
                then_out(
                    queue_changed(),
                    if playing {
                        loaded(x)
                    } else {
                        rearmed(x)
                    },
                )
            } else {
                let x = CtlView {
                    current: if queue.len() > 0 {
                        Some((queue.len() - 1) as usize)
                    } else {
                        None
                    },
                    ..w
                };
                if playing {
                    CtlOut { ctl: x, effects: queue_changed() + seq![CtlEffect::Stop] }
                } else {
                    then_out(queue_changed(), rearmed(x))
                }
            }
        } else {
            then_out(
                queue_changed(),
                rearmed(CtlView { current: id_from(queue, it.id, 0), ..w }),
            )
        },
        None => then_out(queue_changed(), rearmed(w)),
    }
}

/// An item is moved.
pub open spec fn item_moved(v: CtlView, from: int, to: int) -> CtlOut {
    if from >= v.queue.len() || to >= v.queue.len() || from == to {
        quietly(v)
    } else {
        let queue = v.queue.remove(from).insert(to, v.queue[from]);
        then_out(
            queue_changed(),
            rearmed(
                CtlView {
                    queue,
                    current: current_in(v, queue),
                    queue_rev: (v.queue_rev + 1) as u64,
                    ..v
                },
            ),
        )
    }
}

/// Everything after the current item is dropped.
pub open spec fn upcoming_cleared(v: CtlView) -> CtlOut {
    then_out(
        queue_changed(),
        rearmed(
            CtlView {
                queue: v.queue.subrange(0, upcoming(v)),
                queue_rev: (v.queue_rev + 1) as u64,
                ..v
            },
        ),
    )
}

/// Playback stops and the queue is emptied.
pub open spec fn queue_cleared(v: CtlView) -> CtlOut {
    CtlOut {
        ctl: CtlView {
            queue: Seq::empty(),
            current: None,
            context: PlayContext::Nowhere,
            queue_rev: (v.queue_rev + 1) as u64,
            pos_ms: 0,
            dur_ms: 0,
            resume_at: None,
            ..v
        },
        effects: seq![
            CtlEffect::Stop,
            CtlEffect::Publish(CtlEvent::QueueChanged),
            CtlEffect::Publish(CtlEvent::TrackChanged),
        ],
    }
}

/// The natural order of a queue: by album, then by track number.
pub open spec fn album_order() -> spec_fn(QueueItem, QueueItem) -> bool {
    |a: QueueItem, b: QueueItem|
        {
            let x = text_opt(a.info.album_id);
            let y = text_opt(b.info.album_id);
            if x == y {
                opt_num_le(a.info.track_no, b.info.track_no)
            } else {
                opt_text_le(x, y)
            }
        }
}

/// Shuffle is switched. On: what comes after the current item is shuffled.
/// Off: it is put back in its natural order, where the queue has a context.
pub open spec fn shuffle_set(v: CtlView, on: bool, seed: u64) -> CtlOut {
    if v.shuffle == on {
        quietly(v)
    } else {
        let at = upcoming(v);
        let front = v.queue.subrange(0, at);
        let rest = v.queue.subrange(at, v.queue.len() as int);
        let w = CtlView { shuffle: on, queue_rev: (v.queue_rev + 1) as u64, ..v };
        then_out(
            queue_changed(),
            rearmed(
                if on {
                    CtlView { queue: front + shuffled(rest, seed), ..w }
                } else if !(v.context is Nowhere) && v.origin == Origin::Local {
                    let queue = front + sort_stable(rest, album_order());
                    CtlView { queue, current: current_in(v, queue), ..w }
                } else {
                    w
                },
            ),
        )
    }
}

/// The repeat mode is set.
pub open spec fn repeat_set(v: CtlView, r: Repeat) -> CtlOut {
    then_out(queue_changed(), rearmed(CtlView { repeat: r, ..v }))
}

/// A control point takes over the renderer.
pub open spec fn remote_set(v: CtlView, info: TrackInfo) -> CtlOut {
    then_out(
        queue_changed(),
        loaded(
            CtlView {
                queue: numbered(seq![info], v.next_id),
                current: Some(0),
                origin: Origin::Remote,
                context: PlayContext::Nowhere,
                queue_rev: (v.queue_rev + 1) as u64,
                next_id: (v.next_id + 1) as u64,
                resume_at: None,
                ..v
            },
        ),
    )
}

/// The current item alone; the first where none is current.
pub open spec fn current_alone(v: CtlView) -> Seq<QueueItem> {
    let cur = match v.current {
        Some(i) => i as int,
        None => 0,
    };
    let rest = v.queue.subrange(cur, v.queue.len() as int);
    if rest.len() > 1 {
        rest.subrange(0, 1)
    } else {
        rest
    }
}

/// The list is kept short in long remote sessions: [current, next].
pub open spec fn shortened(v: CtlView, info: Option<TrackInfo>) -> CtlView {
    CtlView {
        queue: match info {
            Some(t) => current_alone(v) + numbered(seq![t], v.next_id),
            None => current_alone(v),
        },
        next_id: match info {
            Some(t) => (v.next_id + 1) as u64,
            None => v.next_id,
        },
        current: match v.current {
            Some(i) => Some(0),
            None => None,
        },
        queue_rev: (v.queue_rev + 1) as u64,
        ..v
    }
}

/// The next track of a remote playlist.
pub open spec fn remote_followed(v: CtlView, info: Option<TrackInfo>) -> CtlOut {
    then_out(queue_changed(), rearmed(shortened(v, info)))
}

// ---------------------------------------------------------------------------
// Transport
// ---------------------------------------------------------------------------

/// The position that "next" leads to.
pub open spec fn next_index(v: CtlView) -> Option<int> {
    match v.current {
        Some(i) => if i + 1 < v.queue.len() {
            Some(i + 1)
        } else if v.repeat == Repeat::All && v.queue.len() > 0 {
            Some(0)
        } else {
            None
        },
        None => if v.queue.len() > 0 {
            Some(0)
        } else {
            None
        },
    }
}

/// The position that "previous" leads to.
pub open spec fn prev_index(v: CtlView) -> Option<int> {
    match v.current {
        Some(i) => if i > 0 {
            Some(i - 1)
        } else if v.repeat == Repeat::All && v.queue.len() > 0 {
            Some(v.queue.len() - 1)
        } else {
            None
        },
        None => None,
    }
}

pub open spec fn next_played(v: CtlView) -> CtlOut {
    match next_index(v) {
        Some(i) => index_played(v, i),
        None => quietly(v),
    }
}

/// How far into a track "previous" still leads to the one before.
pub const RESTART_AFTER_MS: u64 = 3000;

/// "Previous" goes back a track only near the start of the current one, and
/// otherwise to its start.
pub open spec fn prev_played(v: CtlView) -> CtlOut {
    match prev_index(v) {
        Some(i) => if v.pos_ms <= RESTART_AFTER_MS {
            index_played(v, i)
        } else {
            sought(v, 0)
        },
        None => sought(v, 0),
    }
}

/// A seek. That of a restored session is remembered for the first play.
pub open spec fn sought(v: CtlView, ms: u64) -> CtlOut {
    if v.status == TransportStatus::Stopped {
        if v.resume_at is Some {
            quietly(CtlView { resume_at: Some(ms), pos_ms: ms, ..v })
        } else {
            quietly(v)
        }
    } else {
        CtlOut {
            ctl: CtlView { pos_ms: ms, ..v },
            effects: seq![CtlEffect::Seek { ms }, CtlEffect::Publish(CtlEvent::Seeked(ms))],
        }
    }
}

/// Where a relative seek leads: not before the start, and at most to half a
/// second before the end where that is known.
pub open spec fn relative_target(pos: int, dur: int, delta: int) -> int {
    let t = if pos + delta < 0 {
        0
    } else {
        pos + delta
    };
    let t = if dur > 0 && t > dur - 500 {
        dur - 500
    } else {
        t
    };
    if t < 0 {
        0
    } else {
        t
    }
}

/// Play from the current state: resume, restart the current item, or start the
/// queue.
pub open spec fn played(v: CtlView) -> CtlOut {
    match v.status {
        TransportStatus::Paused => CtlOut { ctl: v, effects: seq![CtlEffect::Resume] },
        TransportStatus::Playing => quietly(v),
        TransportStatus::Stopped => if v.queue.len() == 0 {
            quietly(v)
        } else {
            let w = CtlView {
                current: if v.current is None {
                    Some(0)
                } else {
                    v.current
                },
                resume_at: None,
                ..v
            };
            loaded(
                match (v.resume_at, item_at(w)) {
                    (Some(pos), Some(it)) => CtlView { seek_on_start: Some((it.id, pos)), ..w },
                    _ => w,
                },
            )
        },
    }
}

pub open spec fn toggled(v: CtlView) -> CtlOut {
    match v.status {
        TransportStatus::Playing => CtlOut { ctl: v, effects: seq![CtlEffect::Pause] },
        TransportStatus::Paused => CtlOut { ctl: v, effects: seq![CtlEffect::Resume] },
        TransportStatus::Stopped => played(v),
    }
}

/// The chain shown until an engine reports its own.
pub open spec fn chain_stub(device: Seq<char>) -> ChainView {
    ChainView {
        device,
        device_kind: kind_of(device),
        format: None,
        container: None,
        volume: 100,
        bit_perfect: kind_of(device) != DeviceKind::Virtual,
    }
}

/// The output device is switched; playback continues where it was.
pub open spec fn device_set(v: CtlView, name: String) -> CtlOut {
    if name@ == v.device_name {
        quietly(v)
    } else {
        let switched = CtlView {
            device_name: name@,
            chain: chain_stub(name@),
            status: TransportStatus::Stopped,
            armed: None,
            loading: None,
            seek_on_start: None,
            failures: 0,
            ..v
        };
        then_out(
            seq![
                CtlEffect::Stop,
                CtlEffect::Respawn { device: name },
                CtlEffect::SetVolume { percent: v.volume },
                CtlEffect::SetMute { muted: v.muted },
                CtlEffect::SetGain { db: v.rg_preamp },
            ],
            match item_at(v) {
                Some(it) => if v.status != TransportStatus::Stopped {
                    loaded(CtlView { seek_on_start: Some((it.id, v.pos_ms)), ..switched })
                } else {
                    quietly(switched)
                },
                None => quietly(switched),
            },
        )
    }
}

// ---------------------------------------------------------------------------
// What the engine reports
// ---------------------------------------------------------------------------

/// The item that a started track is: the one handed out as successor, else the
/// current one, else the first with its URI.
pub open spec fn started_index(v: CtlView, uri: Seq<char>) -> Option<usize> {
    let by_armed = match v.armed {
        Some((id, u)) => if u == uri {
            id_from(v.queue, id, 0)
        } else {
            None
        },
        None => None,
    };
    if by_armed is Some {
        by_armed
    } else {
        match item_at(v) {
            Some(it) => if it.info.uri@ == uri {
                v.current
            } else {
                uri_from(v.queue, uri, 0)
            },
            None => uri_from(v.queue, uri, 0),
        }
    }
}

/// The state while a track begins, before the engine is told what follows.
pub open spec fn beginning(v: CtlView, uri: Seq<char>, format: Option<PcmFormat>) -> CtlView {
    let w = CtlView {
        armed: None,
        seek_on_start: None,
        loading: None,
        failures: 0,
        current: if started_index(v, uri) is Some {
            started_index(v, uri)
        } else {
            v.current
        },
        chain: if format is Some {
            ChainView { format, ..v.chain }
        } else {
            v.chain
        },
        pos_ms: 0,
        stream_title: None,
        ..v
    };
    CtlView {
        dur_ms: match item_at(w) {
            Some(it) => it.info.duration_ms,
            None => 0,
        },
        ..w
    }
}

/// A track has started. A seek that waits for it is applied.
pub open spec fn track_started(v: CtlView, uri: Seq<char>, format: Option<PcmFormat>) -> CtlOut {
    let w = beginning(v, uri, format);
    let seek = match (v.seek_on_start, item_at(w)) {
        (Some((id, pos)), Some(it)) => if id == it.id && pos > 0 {
            seq![CtlEffect::Seek { ms: pos }]
        } else {
            Seq::empty()
        },
        _ => Seq::empty(),
    };
    then_out(seek + seq![CtlEffect::Publish(CtlEvent::TrackChanged)], rearmed(w))
}

/// The engine's status has changed.
pub open spec fn status_reported(v: CtlView, status: TransportStatus) -> CtlOut {
    if v.status == status {
        quietly(v)
    } else if status == TransportStatus::Stopped {
        CtlOut {
            ctl: CtlView { status, pos_ms: 0, armed: None, ..v },
            effects: seq![CtlEffect::Publish(CtlEvent::StatusChanged(status))],
        }
    } else {
        then_out(
            seq![CtlEffect::Publish(CtlEvent::StatusChanged(status))],
            rearmed(CtlView { status, ..v }),
        )
    }
}

/// How many tracks in a row that fail to open are skipped.
pub const MAX_FAILURES: u32 = 5;

/// The engine has reported an error. A track that fails to open is skipped
/// (bounded, to avoid spinning through a queue of unreachable URLs).
pub open spec fn error_reported(v: CtlView, message: String) -> CtlOut {
    let told = seq![CtlEffect::Publish(CtlEvent::Error(message))];
    let skip = v.loading is Some && v.failures < MAX_FAILURES;
    let w = CtlView {
        loading: None,
        failures: if skip {
            (v.failures + 1) as u32
        } else {
            v.failures
        },
        ..v
    };
    match v.current {
        Some(i) => if skip && i + 1 < v.queue.len() {
            then_out(told, loaded(CtlView { current: Some((i + 1) as usize), ..w }))
        } else {
            CtlOut { ctl: w, effects: told }
        },
        None => CtlOut { ctl: w, effects: told },
    }
}

} // verus!
