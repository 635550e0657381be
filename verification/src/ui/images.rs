//! Which covers are decoded, requested and missing.

use std::collections::VecDeque;

use vstd::prelude::*;

use crate::text::{copy_str, dec, dec_string, same_str, texts};
use crate::ui::now::{Lookup, Source};

verus! {

/// How many decoded covers are kept.
pub const CAPACITY: usize = 900;

/// How many of the least recently used covers go when there are too many.
pub const EVICTED: usize = 225;

/// The id of a cover at a size.
pub open spec fn id_text(key: Seq<char>, size: u32) -> Seq<char> {
    dec(size as nat) + ":"@ + key
}

/// The id of a cover at a size.
pub fn cache_id(key: &str, size: u32) -> (s: String)
    ensures
        s@ == id_text(key@, size),
{
    let mut s = dec_string(size as u64);
    s.push_str(":");
    s.push_str(key);
    s
}

/// What becomes of a request.
#[derive(Debug, Clone, Copy, PartialEq, Eq, Structural)]
pub enum Fetch {
    /// It is decoded.
    Cached,
    /// It is being decoded, or there is none.
    Pending,
    /// It was put first in line.
    Scheduled,
}

/// Bookkeeping of covers: ids of decoded ones, least recently used first; of
/// those that were requested; of those that do not exist; and of those that wait
/// for a worker, next first.
#[derive(Debug)]
pub struct Loader {
    cache: Vec<String>,
    in_flight: Vec<String>,
    missing: Vec<String>,
    queue: VecDeque<String>,
}

/// The contents of a `Loader`.
pub struct LoaderView {
    pub cache: Seq<Seq<char>>,
    pub in_flight: Seq<Seq<char>>,
    pub missing: Seq<Seq<char>>,
    pub queue: Seq<Seq<char>>,
}

impl View for Loader {
    type V = LoaderView;

    closed spec fn view(&self) -> LoaderView {
        LoaderView {
            cache: texts(self.cache@),
            in_flight: texts(self.in_flight@),
            missing: texts(self.missing@),
            queue: texts(self.queue@),
        }
    }
}

/// A list without an id.
pub open spec fn without(s: Seq<Seq<char>>, id: Seq<char>) -> Seq<Seq<char>>
    decreases s.len(),
{
    if s.len() == 0 {
        s
    } else if s.last() == id {
        without(s.drop_last(), id)
    } else {
        without(s.drop_last(), id).push(s.last())
    }
}

/// A list without the first `n` of some ids.
pub open spec fn without_all(s: Seq<Seq<char>>, ids: Seq<Seq<char>>, n: nat) -> Seq<Seq<char>>
    decreases n,
{
    if n == 0 || n > ids.len() {
        s
    } else {
        without(without_all(s, ids, (n - 1) as nat), ids[n - 1])
    }
}

/// After a request.
pub open spec fn requested(l: LoaderView, id: Seq<char>) -> (LoaderView, Fetch) {
    if l.cache.contains(id) {
        (LoaderView { cache: without(l.cache, id).push(id), ..l }, Fetch::Cached)
    } else if l.missing.contains(id) || l.in_flight.contains(id) {
        (l, Fetch::Pending)
    } else {
        (
            LoaderView { in_flight: l.in_flight.push(id), queue: seq![id] + l.queue, ..l },
            Fetch::Scheduled,
        )
    }
}

/// The decoded covers after another one was decoded.
pub open spec fn kept(cache: Seq<Seq<char>>, id: Seq<char>) -> Seq<Seq<char>> {
    let all = without(cache, id).push(id);
    if all.len() > CAPACITY {
        all.subrange(EVICTED as int, all.len() as int)
    } else {
        all
    }
}

/// After an answer.
pub open spec fn answered(l: LoaderView, id: Seq<char>, found: bool) -> LoaderView {
    let in_flight = without(l.in_flight, id);
    if found {
        LoaderView { cache: kept(l.cache, id), in_flight, ..l }
    } else if l.missing.contains(id) {
        LoaderView { in_flight, ..l }
    } else {
        LoaderView { missing: l.missing.push(id), in_flight, ..l }
    }
}

/// After the requests that no worker has started were dropped.
pub open spec fn cancelled(l: LoaderView) -> LoaderView {
    LoaderView {
        in_flight: without_all(l.in_flight, l.queue, l.queue.len()),
        queue: Seq::empty(),
        ..l
    }
}

fn among(v: &Vec<String>, id: &str) -> (r: bool)
    ensures
        r == texts(v@).contains(id@),
{
    for i in 0..v.len()
        invariant
            forall|j: int| 0 <= j < i ==> (#[trigger] texts(v@)[j]) != id@,
    {
        if same_str(v[i].as_str(), id) {
            assert(texts(v@)[i as int] == id@);
            return true;
        }
        assert(texts(v@)[i as int] != id@);
    }
    false
}

fn remove_from(v: &mut Vec<String>, id: &str)
    ensures
        texts(final(v)@) == without(texts(old(v)@), id@),
{
    let ghost all = texts(v@);
    let mut out: Vec<String> = Vec::new();
    assert(texts(out@) == Seq::<Seq<char>>::empty());
    assert(all.subrange(0, 0) == Seq::<Seq<char>>::empty());
    for i in 0..v.len()
        invariant
            all == texts(v@),
            texts(out@) == without(all.subrange(0, i as int), id@),
    {
        assert(all.subrange(0, i + 1).drop_last() == all.subrange(0, i as int));
        assert(all.subrange(0, i + 1).last() == v@[i as int]@);
        if !same_str(v[i].as_str(), id) {
            let ghost before = out@;
            let s = v[i].clone();
            out.push(s);
            assert(texts(out@) == texts(before).push(s@));
        }
    }
    assert(all.subrange(0, all.len() as int) == all);
    *v = out;
}

fn add_to(v: &mut Vec<String>, id: &str)
    ensures
        texts(final(v)@) == texts(old(v)@).push(id@),
{
    let ghost before = v@;
    let s = copy_str(id);
    v.push(s);
    assert(texts(v@) == texts(before).push(id@));
}

impl Loader {
    pub fn new() -> (l: Loader)
        ensures
            l@.cache.len() == 0,
            l@.in_flight.len() == 0,
            l@.missing.len() == 0,
            l@.queue.len() == 0,
    {
        Loader {
            cache: Vec::new(),
            in_flight: Vec::new(),
            missing: Vec::new(),
            queue: VecDeque::new(),
        }
    }

    /// A cover is wanted: it is decoded, or put first in line: the most recent
    /// requests are what the user looks at.
    pub fn get(&mut self, id: &str) -> (r: Fetch)
        ensures
            (final(self)@, r) == requested(old(self)@, id@),
    {
        if among(&self.cache, id) {
            remove_from(&mut self.cache, id);
            add_to(&mut self.cache, id);
            return Fetch::Cached;
        }
        if among(&self.missing, id) || among(&self.in_flight, id) {
            return Fetch::Pending;
        }
        add_to(&mut self.in_flight, id);
        let ghost before = self.queue@;
        let s = copy_str(id);
        self.queue.push_front(s);
        assert(self.queue@ == seq![s] + before);
        assert(texts(self.queue@) == seq![id@] + texts(before));
        Fetch::Scheduled
    }

    /// Whether a cover is decoded.
    pub fn peek(&self, id: &str) -> (r: bool)
        ensures
            r == self@.cache.contains(id@),
    {
        among(&self.cache, id)
    }

    /// The next request for a worker.
    pub fn next_job(&mut self) -> (r: Option<String>)
        ensures
            final(self)@.cache == old(self)@.cache,
            final(self)@.in_flight == old(self)@.in_flight,
            final(self)@.missing == old(self)@.missing,
            match r {
                Some(id) => old(self)@.queue == seq![id@] + final(self)@.queue,
                None => old(self)@.queue.len() == 0 && final(self)@.queue == old(self)@.queue,
            },
    {
        let ghost before = self.queue@;
        match self.queue.pop_front() {
            Some(id) => {
                assert(texts(before) == seq![id@] + texts(self.queue@));
                Some(id)
            },
            None => None,
        }
    }

    /// Drops requests that no worker has started, e.g. after navigating away.
    pub fn cancel_pending(&mut self)
        ensures
            final(self)@ == cancelled(old(self)@),
    {
        let ghost all = texts(self.queue@);
        let ghost start = texts(self.in_flight@);
        let n = self.queue.len();
        for i in 0..n
            invariant
                n == self.queue@.len(),
                all == texts(self.queue@),
                self.cache == old(self).cache,
                self.missing == old(self).missing,
                self.queue == old(self).queue,
                texts(self.in_flight@) == without_all(start, all, i as nat),
        {
            assert(all[i as int] == self.queue@[i as int]@);
            let id = self.queue[i].clone();
            remove_from(&mut self.in_flight, id.as_str());
        }
        self.queue = VecDeque::new();
        assert(texts(self.queue@) == Seq::<Seq<char>>::empty());
    }

    /// A worker is done with a cover. The result are the ids of covers that are
    /// no longer kept.
    pub fn arrived(&mut self, id: &str, found: bool) -> (gone: Vec<String>)
        ensures
            final(self)@ == answered(old(self)@, id@, found),
            found ==> texts(gone@) + final(self)@.cache == without(old(self)@.cache, id@).push(id@),
            !found ==> gone@.len() == 0,
    {
        let mut gone: Vec<String> = Vec::new();
        remove_from(&mut self.in_flight, id);
        if !found {
            if !among(&self.missing, id) {
                add_to(&mut self.missing, id);
            }
            return gone;
        }
        remove_from(&mut self.cache, id);
        add_to(&mut self.cache, id);
        let ghost all = texts(self.cache@);
        if self.cache.len() > CAPACITY {
            let mut rest = self.cache.split_off(EVICTED);
            std::mem::swap(&mut self.cache, &mut rest);
            gone = rest;
            assert(texts(self.cache@) == all.subrange(EVICTED as int, all.len() as int));
            assert(texts(gone@) + texts(self.cache@) == all);
        } else {
            assert(texts(gone@) == Seq::<Seq<char>>::empty());
            assert(Seq::<Seq<char>>::empty() + all == all);
        }
        gone
    }

    /// Forgets negative results (after a rescan or a settings change).
    pub fn forget_missing(&mut self)
        ensures
            final(self)@ == (LoaderView { missing: Seq::empty(), ..old(self)@ }),
    {
        self.missing = Vec::new();
        assert(texts(self.missing@) == Seq::<Seq<char>>::empty());
    }
}

/// A cover that was put in line is not put there again before it arrives.
pub proof fn a_request_is_scheduled_once(l: LoaderView, id: Seq<char>)
    requires
        requested(l, id).1 == Fetch::Scheduled,
    ensures
        requested(requested(l, id).0, id).1 == Fetch::Pending,
{
    let next = requested(l, id).0;
    assert(next.in_flight[l.in_flight.len() as int] == id);
}

/// A cover that arrived is there, and is the last to go.
pub proof fn an_arrival_is_kept(l: LoaderView, id: Seq<char>)
    ensures
        answered(l, id, true).cache.last() == id,
        requested(answered(l, id, true), id).1 == Fetch::Cached,
{
    let c = answered(l, id, true).cache;
    lemma_without_len(l.cache, id);
    assert(c[c.len() - 1] == id);
    assert(c.contains(id));
}

/// However many covers arrive, no more are kept than there is room for.
pub proof fn the_cache_stays_bounded(l: LoaderView, id: Seq<char>)
    requires
        l.cache.len() <= CAPACITY,
    ensures
        answered(l, id, true).cache.len() <= CAPACITY,
{
    lemma_without_len(l.cache, id);
}

proof fn lemma_without_len(s: Seq<Seq<char>>, id: Seq<char>)
    ensures
        without(s, id).len() <= s.len(),
    decreases s.len(),
{
    if s.len() > 0 {
        lemma_without_len(s.drop_last(), id);
    }
}

/// The edge of a cover on a tile.
pub const TILE: u32 = 320;

/// The edge of a cover in a row.
pub const THUMB: u32 = 96;

/// The edge of a cover at the head of a page.
pub const LARGE: u32 = 640;

/// A cover to show.
#[derive(Debug)]
pub struct Art {
    pub src: Source,
    /// What to ask the web for where there is none.
    pub lookup: Option<Lookup>,
    pub size: u32,
    /// Fetch it at once, not when it comes into view.
    pub eager: bool,
}

/// Whether a cover is that of a track file, with nothing to ask the web for.
pub open spec fn is_file_art(a: Art, key: Seq<char>, path: Seq<char>, size: u32) -> bool {
    &&& a.src matches Source::Track { key: k, path: p } && k@ == key && p@ == path
    &&& a.lookup is None
    &&& a.size == size
}

/// The cover of a track file.
pub fn file_art(key: &str, path: &str, size: u32, eager: bool) -> (a: Art)
    ensures
        is_file_art(a, key@, path@, size),
        a.eager == eager,
{
    Art {
        src: Source::Track { key: copy_str(key), path: copy_str(path) },
        lookup: None,
        size,
        eager,
    }
}

/// The size of the thumbnail on disk that a cover is made of.
pub fn disk_size(size: u32) -> (r: u32)
    ensures
        r == (if size <= 128 {
            128u32
        } else if size <= 320 {
            320u32
        } else {
            800u32
        }),
{
    if size <= 128 {
        128
    } else if size <= 320 {
        320
    } else {
        800
    }
}

} // verus!
