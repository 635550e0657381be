//! What the controller promises over all its operations.

use vstd::prelude::*;

use crate::audio::fmt::PcmFormat;
use crate::audio::player::TransportStatus;
use crate::controller::model::{
    album_order, current_in, device_set, enqueued, error_reported, gain_for, id_from, ids_removed,
    item_at, item_moved, kept, numbered, played, shuffle_set, track_started, upcoming, upcoming_cleared,
    MAX_FAILURES,
};
use crate::controller::state::{
    ctl_wf, ids_below, ids_differ, CtlEffect, CtlEvent, CtlView, EnqueueAt, Origin, QueueItem,
    TrackInfo,
};
use crate::order::{
    ascending, order_is_unique, ranks_differ, shuffle_is_permutation, shuffled, sort_stable,
    sorting_is_stable, text_order_is_total, text_order_is_transitive, total_preorder,
};
use crate::text::text_opt;

verus! {

pub(crate) proof fn lemma_numbered(infos: Seq<TrackInfo>, next_id: u64)
    requires
        next_id + infos.len() <= u64::MAX,
    ensures
        ids_differ(numbered(infos, next_id)),
        ids_below(numbered(infos, next_id), next_id + infos.len()),
        forall|i: int|
            0 <= i < infos.len() ==> (#[trigger] numbered(infos, next_id)[i]).id == next_id + i,
{
    reveal(ids_differ);
    reveal(ids_below);
}

/// An item that is in a queue is found by its id.
pub(crate) proof fn lemma_id_from(q: Seq<QueueItem>, i: int, from: int)
    requires
        q.len() <= usize::MAX,
        ids_differ(q),
        0 <= from <= i < q.len(),
    ensures
        id_from(q, q[i].id, from) == Some(i as usize),
    decreases i - from,
{
    reveal(ids_differ);
    reveal(ids_below);
    if from < i {
        assert(q[from].id != q[i].id);
        lemma_id_from(q, i, from + 1);
    }
}

pub(crate) proof fn lemma_kept(q: Seq<QueueItem>, ids: Seq<u64>, n: nat, next_id: u64)
    requires
        n <= q.len(),
        ids_differ(q),
        ids_below(q, next_id as int),
    ensures
        ids_differ(kept(q, ids, n)),
        ids_below(kept(q, ids, n), next_id as int),
        kept(q, ids, n).len() <= n,
        forall|i: int|
            0 <= i < kept(q, ids, n).len() ==> exists|j: int|
                0 <= j < n && #[trigger] q[j] == #[trigger] kept(q, ids, n)[i],
        forall|j: int|
            0 <= j < n && !ids.contains((#[trigger] q[j]).id) ==> kept(q, ids, n).contains(q[j]),
    decreases n,
{
    reveal(ids_differ);
    reveal(ids_below);
    if n > 0 {
        lemma_kept(q, ids, (n - 1) as nat, next_id);
        let before = kept(q, ids, (n - 1) as nat);
        let now = kept(q, ids, n);
        if !ids.contains(q[n - 1].id) {
            assert forall|i: int, j: int| 0 <= i < j < now.len() implies (#[trigger] now[i]).id
                != (#[trigger] now[j]).id by {
                if j == before.len() {
                    let k = choose|k: int| 0 <= k < n - 1 && #[trigger] q[k] == before[i];
                    assert(q[k].id != q[n - 1].id);
                }
            }
            assert forall|i: int| 0 <= i < now.len() implies exists|j: int|
                0 <= j < n && #[trigger] q[j] == #[trigger] now[i] by {
                if i < before.len() {
                    let k = choose|k: int| 0 <= k < n - 1 && #[trigger] q[k] == before[i];
                    assert(q[k] == now[i]);
                } else {
                    assert(q[n - 1] == now[i]);
                }
            }
            assert forall|j: int| 0 <= j < n && !ids.contains((#[trigger] q[j]).id) implies
                now.contains(q[j]) by {
                if j < n - 1 {
                    assert(before.contains(q[j]));
                    let i = choose|i: int| 0 <= i < before.len() && before[i] == q[j];
                    assert(now[i] == q[j]);
                } else {
                    assert(now[before.len() as int] == q[j]);
                }
            }
        } else {
            assert forall|i: int| 0 <= i < now.len() implies exists|j: int|
                0 <= j < n && #[trigger] q[j] == #[trigger] now[i] by {
                let k = choose|k: int| 0 <= k < n - 1 && #[trigger] q[k] == before[i];
                assert(q[k] == now[i]);
            }
        }
    }
}

/// A part of a queue keeps its ids apart.
pub(crate) proof fn lemma_part_ids(q: Seq<QueueItem>, a: int, b: int)
    requires
        0 <= a <= b <= q.len(),
        ids_differ(q),
    ensures
        ids_differ(q.subrange(a, b)),
        forall|n: int| #[trigger] ids_below(q, n) ==> ids_below(q.subrange(a, b), n),
{
    reveal(ids_differ);
    reveal(ids_below);
    let p = q.subrange(a, b);
    assert forall|i: int, j: int| 0 <= i < j < p.len() implies (#[trigger] p[i]).id
        != (#[trigger] p[j]).id by {
        assert(q[a + i].id != q[a + j].id);
    }
    assert forall|n: int| #[trigger] ids_below(q, n) implies ids_below(p, n) by {
        assert forall|i: int| 0 <= i < p.len() implies (#[trigger] p[i]).id < n by {
            assert(q[a + i].id < n);
        }
    }
}

/// A queue with a new item behind it keeps its ids apart.
pub(crate) proof fn lemma_push_ids(q: Seq<QueueItem>, item: QueueItem)
    requires
        ids_differ(q),
        ids_below(q, item.id as int),
    ensures
        ids_differ(q.push(item)),
        ids_below(q.push(item), item.id + 1),
{
    reveal(ids_differ);
    reveal(ids_below);
    let p = q.push(item);
    assert forall|i: int, j: int| 0 <= i < j < p.len() implies (#[trigger] p[i]).id
        != (#[trigger] p[j]).id by {
        if j < q.len() {
            assert(q[i].id != q[j].id);
        } else {
            assert(q[i].id < item.id);
        }
    }
    assert forall|i: int| 0 <= i < p.len() implies (#[trigger] p[i]).id < item.id + 1 by {
        if i < q.len() {
            assert(q[i].id < item.id);
        }
    }
}

/// An empty queue has no ids.
pub(crate) proof fn lemma_no_ids(n: int)
    ensures
        ids_differ(Seq::<QueueItem>::empty()),
        ids_below(Seq::<QueueItem>::empty(), n),
{
    reveal(ids_differ);
    reveal(ids_below);
}

/// Items moved around keep their ids apart.
pub(crate) proof fn lemma_permuted_ids(q: Seq<QueueItem>, p: Seq<QueueItem>)
    requires
        ids_differ(q),
        p.to_multiset() == q.to_multiset(),
    ensures
        p.len() == q.len(),
        ids_differ(p),
        forall|n: int| #[trigger] ids_below(q, n) ==> ids_below(p, n),
        forall|i: int| 0 <= i < q.len() ==> p.contains(#[trigger] q[i]),
{
    reveal(ids_differ);
    reveal(ids_below);
    broadcast use vstd::seq_lib::group_to_multiset_ensures;

    assert(p.to_multiset().len() == p.len());
    assert(q.to_multiset().len() == q.len());
    assert forall|i: int| 0 <= i < q.len() implies p.contains(#[trigger] q[i]) by {
        assert(q.contains(q[i]));
        assert(p.to_multiset().count(q[i]) > 0);
    }
    assert forall|i: int| 0 <= i < p.len() implies q.contains(#[trigger] p[i]) by {
        assert(p.contains(p[i]));
        assert(q.to_multiset().count(p[i]) > 0);
    }
    assert forall|n: int| #[trigger] ids_below(q, n) implies ids_below(p, n) by {
        assert forall|i: int| 0 <= i < p.len() implies (#[trigger] p[i]).id < n by {
            assert(q.contains(p[i]));
            let k = choose|k: int| 0 <= k < q.len() && q[k] == p[i];
            assert(q[k].id < n);
        }
    }
    assert forall|i: int, j: int| 0 <= i < j < p.len() implies (#[trigger] p[i]).id
        != (#[trigger] p[j]).id by {
        if p[i].id == p[j].id {
            assert(q.contains(p[i]) && q.contains(p[j]));
            let a = choose|a: int| 0 <= a < q.len() && q[a] == p[i];
            let b = choose|b: int| 0 <= b < q.len() && q[b] == p[j];
            if a < b {
                assert(q[a].id != q[b].id);
            } else if b < a {
                assert(q[b].id != q[a].id);
            }
            // So the same item stands twice in `p`, but only once in `q`.
            assert(p[i] == p[j]);
            lemma_twice(p, i, j);
            lemma_once(q, a);
        }
    }
}

proof fn lemma_twice(p: Seq<QueueItem>, i: int, j: int)
    requires
        0 <= i < j < p.len(),
        p[i] == p[j],
    ensures
        p.to_multiset().count(p[i]) >= 2,
{
    broadcast use vstd::seq_lib::group_to_multiset_ensures;

    let less = p.remove(j);
    assert(less[i] == p[i]);
    assert(less.contains(p[i]));
    assert(less.to_multiset().count(p[i]) >= 1);
    assert(less.to_multiset() == p.to_multiset().remove(p[j]));
    assert(p.contains(p[j]));
}

proof fn lemma_once(q: Seq<QueueItem>, a: int)
    requires
        0 <= a < q.len(),
        ids_differ(q),
    ensures
        q.to_multiset().count(q[a]) == 1,
{
    reveal(ids_differ);
    reveal(ids_below);
    broadcast use vstd::seq_lib::group_to_multiset_ensures;

    let less = q.remove(a);
    assert(less.to_multiset() == q.to_multiset().remove(q[a]));
    assert(q.contains(q[a]));
    if less.to_multiset().count(q[a]) > 0 {
        assert(less.contains(q[a]));
        let k = choose|k: int| 0 <= k < less.len() && less[k] == q[a];
        if k < a {
            assert(q[k].id != q[a].id);
        } else {
            assert(less[k] == q[k + 1]);
            assert(q[a].id != q[k + 1].id);
        }
    }
}

/// Any two queue items can be compared in the natural order, consistently.
pub proof fn album_order_is_total()
    ensures
        total_preorder(album_order()),
{
    let leq = album_order();
    assert forall|a: QueueItem, b: QueueItem| #[trigger] leq(a, b) || leq(b, a) by {
        let x = text_opt(a.info.album_id);
        let y = text_opt(b.info.album_id);
        if x is Some && y is Some {
            text_order_is_total(x->0, y->0);
        }
    }
    assert forall|a: QueueItem, b: QueueItem, c: QueueItem| #[trigger] leq(a, b) && #[trigger] leq(
        b,
        c,
    ) implies leq(a, c) by {
        let x = text_opt(a.info.album_id);
        let y = text_opt(b.info.album_id);
        let z = text_opt(c.info.album_id);
        if x is Some && y is Some && z is Some {
            text_order_is_total(x->0, y->0);
            text_order_is_total(y->0, z->0);
            text_order_is_total(x->0, z->0);
            if x != y && y != z {
                text_order_is_transitive(x->0, y->0, z->0);
            }
        }
    }
}

/// Queueing more leaves the current item what it was, and where it was.
pub proof fn enqueue_keeps_current(v: CtlView, infos: Seq<TrackInfo>, at: EnqueueAt)
    requires
        ctl_wf(v),
        v.queue.len() > 0,
    ensures
        item_at(enqueued(v, infos, at).ctl) == item_at(v),
        enqueued(v, infos, at).ctl.current == v.current,
{
}

/// Moving items around leaves the current item what it was.
pub proof fn move_keeps_current(v: CtlView, from: int, to: int)
    requires
        ctl_wf(v),
        v.queue.len() <= usize::MAX,
        0 <= from,
        0 <= to,
    ensures
        item_at(item_moved(v, from, to).ctl) == item_at(v),
{
    broadcast use vstd::seq_lib::group_to_multiset_ensures;

    if from < v.queue.len() && to < v.queue.len() && from != to && item_at(v) is Some {
        let q = v.queue.remove(from).insert(to, v.queue[from]);
        assert(v.queue.contains(v.queue[from]));
        assert(v.queue.to_multiset().remove(v.queue[from]).insert(v.queue[from])
            =~= v.queue.to_multiset());
        lemma_current_found(v, q);
    }
}

/// The current item is found again in a permuted queue.
proof fn lemma_current_found(v: CtlView, q: Seq<QueueItem>)
    requires
        ctl_wf(v),
        v.queue.len() <= usize::MAX,
        item_at(v) is Some,
        q.to_multiset() == v.queue.to_multiset(),
    ensures
        current_in(v, q) matches Some(i) && i < q.len() && q[i as int] == item_at(v)->0,
{
    lemma_permuted_ids(v.queue, q);
    let it = item_at(v)->0;
    assert(q.contains(v.queue[v.current->0 as int]));
    let k = choose|k: int| 0 <= k < q.len() && q[k] == it;
    lemma_id_from(q, k, 0);
}

/// Removing other items leaves the current item what it was.
pub proof fn removal_keeps_current(v: CtlView, ids: Seq<u64>)
    requires
        ctl_wf(v),
        v.queue.len() <= usize::MAX,
        item_at(v) is Some,
        !ids.contains(item_at(v)->0.id),
    ensures
        item_at(ids_removed(v, ids).ctl) == item_at(v),
{
    let q = kept(v.queue, ids, v.queue.len());
    lemma_kept(v.queue, ids, v.queue.len(), v.next_id);
    let it = item_at(v)->0;
    assert(q.contains(v.queue[v.current->0 as int]));
    let k = choose|k: int| 0 <= k < q.len() && q[k] == it;
    lemma_id_from(q, k, 0);
}

/// Dropping what comes after the current item leaves everything up to it.
pub proof fn clearing_keeps_current(v: CtlView)
    requires
        ctl_wf(v),
        item_at(v) is Some,
    ensures
        item_at(upcoming_cleared(v).ctl) == item_at(v),
        upcoming_cleared(v).ctl.queue == v.queue.subrange(0, v.current->0 + 1),
{
}

/// Switching shuffle leaves everything up to the current item where it is, and
/// only rearranges what comes after it.
pub proof fn shuffle_keeps_what_played(v: CtlView, on: bool, seed: u64)
    requires
        ctl_wf(v),
        v.queue.len() <= usize::MAX,
    ensures
        ({
            let w = shuffle_set(v, on, seed).ctl;
            let at = upcoming(v);
            &&& w.queue.subrange(0, at) == v.queue.subrange(0, at)
            &&& w.queue.to_multiset() == v.queue.to_multiset()
            &&& item_at(w) == item_at(v)
        }),
{
    broadcast use vstd::seq_lib::group_to_multiset_ensures;

    let w = shuffle_set(v, on, seed).ctl;
    let at = upcoming(v);
    let front = v.queue.subrange(0, at);
    let rest = v.queue.subrange(at, v.queue.len() as int);
    assert(front + rest == v.queue);
    vstd::seq_lib::lemma_multiset_commutative(front, rest);
    if v.shuffle != on {
        if on {
            let mixed = shuffled(rest, seed);
            shuffle_is_permutation(rest, seed | 1, rest.len() - 1);
            vstd::seq_lib::lemma_multiset_commutative(front, mixed);
            assert((front + mixed).subrange(0, at) == front);
        } else if !(v.context is Nowhere) && v.origin == Origin::Local {
            let sorted = sort_stable(rest, album_order());
            album_order_is_total();
            sorting_is_stable(rest, album_order());
            vstd::seq_lib::lemma_multiset_commutative(front, sorted);
            assert((front + sorted).subrange(0, at) == front);
            if item_at(v) is Some {
                lemma_current_found(v, front + sorted);
            }
        }
    }
}

/// Switching shuffle on and off again restores the order of an album, or of
/// anything else that was queued in its natural order.
pub proof fn unshuffling_restores_order(v: CtlView, seed: u64, other_seed: u64)
    requires
        ctl_wf(v),
        v.queue.len() <= usize::MAX,
        !v.shuffle,
        !(v.context is Nowhere),
        v.origin == Origin::Local,
        ascending(v.queue.subrange(upcoming(v), v.queue.len() as int), album_order()),
        ranks_differ(v.queue.subrange(upcoming(v), v.queue.len() as int), album_order()),
    ensures
        ({
            let w = shuffle_set(shuffle_set(v, true, seed).ctl, false, other_seed).ctl;
            &&& w.queue == v.queue
            &&& !w.shuffle
            &&& item_at(w) == item_at(v)
        }),
{
    let on = shuffle_set(v, true, seed).ctl;
    let at = upcoming(v);
    let front = v.queue.subrange(0, at);
    let rest = v.queue.subrange(at, v.queue.len() as int);
    let mixed = shuffled(rest, seed);
    assert(front + rest == v.queue);
    shuffle_is_permutation(rest, seed | 1, rest.len() - 1);
    shuffle_keeps_what_played(v, true, seed);
    assert(on.queue == front + mixed);
    assert(mixed.len() == rest.len()) by {
        rest.to_multiset_ensures();
        mixed.to_multiset_ensures();
    }
    assert(upcoming(on) == at);
    assert(on.queue.subrange(0, at) == front);
    assert(on.queue.subrange(at, on.queue.len() as int) == mixed);
    album_order_is_total();
    sorting_is_stable(mixed, album_order());
    let sorted = sort_stable(mixed, album_order());
    assert(sorted.to_multiset() == rest.to_multiset());
    order_is_unique(rest, sorted, album_order());
    let w = shuffle_set(on, false, other_seed).ctl;
    assert(w.queue == front + rest);
    if item_at(v) is Some {
        lemma_current_found(v, v.queue);
        assert(current_in(on, v.queue) == current_in(v, v.queue));
    }
}

/// After the output device is switched, the same item plays on the new one,
/// from where it was and with the gain that it had.
pub proof fn device_switch_keeps_place(v: CtlView, name: String, format: Option<PcmFormat>)
    requires
        ctl_wf(v),
        item_at(v) is Some,
        v.status != TransportStatus::Stopped,
        v.pos_ms > 0,
        name@ != v.device_name,
    ensures
        ({
            let it = item_at(v)->0;
            let switched = device_set(v, name);
            let begun = track_started(switched.ctl, it.info.uri@, format);
            &&& switched.ctl.device_name == name@
            &&& switched.effects.contains(CtlEffect::Respawn { device: name })
            &&& switched.effects.contains(CtlEffect::SetGain { db: v.rg_preamp })
            &&& switched.effects.contains(
                CtlEffect::Load {
                    uri: it.info.uri,
                    opts: gain_for(v.context, v.shuffle, v.replaygain, it.info),
                },
            )
            &&& switched.ctl.replaygain == v.replaygain
            &&& item_at(switched.ctl) == Some(it)
            &&& item_at(begun.ctl) == Some(it)
            &&& begun.effects[0] == (CtlEffect::Seek { ms: v.pos_ms })
        }),
{
    let switched = device_set(v, name);
    assert(switched.effects[1] == (CtlEffect::Respawn { device: name }));
    assert(switched.effects[4] == (CtlEffect::SetGain { db: v.rg_preamp }));
    assert(switched.effects[5] is Load);
}

/// The first play after a session was restored goes on where the session ended.
pub proof fn restored_session_resumes(v: CtlView, pos: u64, format: Option<PcmFormat>)
    requires
        ctl_wf(v),
        v.queue.len() > 0,
        v.status == TransportStatus::Stopped,
        v.resume_at == Some(pos),
        pos > 0,
    ensures
        ({
            let resumed = played(v);
            &&& item_at(resumed.ctl) matches Some(it) && ({
                let begun = track_started(resumed.ctl, it.info.uri@, format);
                &&& v.current is Some ==> Some(it) == item_at(v)
                &&& item_at(begun.ctl) == Some(it)
                &&& begun.effects[0] == (CtlEffect::Seek { ms: pos })
            })
        }),
{
}

/// The item that the engine was handed as successor is the current one once it
/// plays.
pub proof fn successor_becomes_current(
    v: CtlView,
    i: int,
    uri: Seq<char>,
    format: Option<PcmFormat>,
)
    requires
        ctl_wf(v),
        v.queue.len() <= usize::MAX,
        0 <= i < v.queue.len(),
        v.armed == Some((v.queue[i].id, uri)),
    ensures
        track_started(v, uri, format).ctl.current == Some(i as usize),
        item_at(track_started(v, uri, format).ctl) == Some(v.queue[i]),
{
    lemma_id_from(v.queue, i, 0);
}

/// Tracks that fail to open are skipped a limited number of times in a row.
pub proof fn skipping_is_bounded(v: CtlView, message: String)
    requires
        v.failures <= MAX_FAILURES,
    ensures
        ({
            let o = error_reported(v, message);
            &&& v.failures <= o.ctl.failures <= MAX_FAILURES
            &&& v.failures == MAX_FAILURES ==> o.ctl.current == v.current && o.effects == seq![
                CtlEffect::Publish(CtlEvent::Error(message)),
            ]
            &&& o.ctl.current != v.current ==> o.ctl.failures == v.failures + 1
        }),
{
}

} // verus!
