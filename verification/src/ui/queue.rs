//! The queue as it is shown.

use vstd::prelude::*;

use crate::controller::state::QueueItem;
use crate::text::copy_str;
use crate::ui::text::{clock, count, count_text, long_duration, mmss, rough};

verus! {

/// A row of the queue.
#[derive(Debug)]
pub struct QueueRow {
    pub id: u64,
    pub title: String,
    pub artist: String,
    pub dur: String,
    pub current: bool,
    /// It was played already.
    pub past: bool,
}

/// The contents of a `QueueRow`.
pub struct QueueRowView {
    pub id: u64,
    pub title: Seq<char>,
    pub artist: Seq<char>,
    pub dur: Seq<char>,
    pub current: bool,
    pub past: bool,
}

impl View for QueueRow {
    type V = QueueRowView;

    open spec fn view(&self) -> QueueRowView {
        QueueRowView {
            id: self.id,
            title: self.title@,
            artist: self.artist@,
            dur: self.dur@,
            current: self.current,
            past: self.past,
        }
    }
}

/// A duration that is known.
pub open spec fn known_clock(ms: u64) -> Seq<char> {
    if ms > 0 {
        clock(ms)
    } else {
        ""@
    }
}

/// The row of an item.
pub open spec fn row_of(q: QueueItem, i: int, current: Option<usize>) -> QueueRowView {
    QueueRowView {
        id: q.id,
        title: q.info.title@,
        artist: match q.info.artist {
            Some(a) => a@,
            None => ""@,
        },
        dur: known_clock(q.info.duration_ms),
        current: current matches Some(c) && c == i,
        past: current matches Some(c) && i < c,
    }
}

/// The contents of a list of rows.
pub open spec fn row_views(v: Seq<QueueRow>) -> Seq<QueueRowView> {
    Seq::new(v.len(), |i: int| v[i]@)
}

/// The rows of a queue.
pub open spec fn rows_of(queue: Seq<QueueItem>, current: Option<usize>) -> Seq<QueueRowView> {
    Seq::new(queue.len(), |i: int| row_of(queue[i], i, current))
}

/// The first item that is still to come.
pub open spec fn first_upcoming(n: nat, current: Option<usize>) -> int {
    match current {
        Some(c) => if c + 1 < n {
            c + 1
        } else {
            n as int
        },
        None => 0,
    }
}

/// How long the items from `from` on take.
pub open spec fn length_from(queue: Seq<QueueItem>, from: int) -> int
    decreases queue.len() - from,
{
    if from < 0 || from >= queue.len() {
        0
    } else {
        queue[from].info.duration_ms + length_from(queue, from + 1)
    }
}

/// How many items are still to come, and how long they take.
pub open spec fn meta_text(queue: Seq<QueueItem>, current: Option<usize>, french: bool) -> Seq<
    char,
> {
    let from = first_upcoming(queue.len(), current);
    let length = length_from(queue, from);
    count_text((queue.len() - from) as nat, "track"@, "tracks"@, french) + (if length > 0 {
        " · "@ + rough(length)
    } else {
        ""@
    })
}

fn row(q: &QueueItem, i: usize, current: Option<usize>) -> (r: QueueRow)
    ensures
        r@ == row_of(*q, i as int, current),
{
    let artist = match &q.info.artist {
        Some(a) => a.clone(),
        None => copy_str(""),
    };
    let dur = if q.info.duration_ms > 0 {
        mmss(q.info.duration_ms)
    } else {
        copy_str("")
    };
    let (is_current, past) = match current {
        Some(c) => (c == i, i < c),
        None => (false, false),
    };
    QueueRow { id: q.id, title: q.info.title.clone(), artist, dur, current: is_current, past }
}

/// The rows of the queue.
pub fn rebuild_queue(queue: &Vec<QueueItem>, current: Option<usize>) -> (rows: Vec<QueueRow>)
    ensures
        row_views(rows@) == rows_of(queue@, current),
{
    let ghost want = rows_of(queue@, current);
    let mut rows: Vec<QueueRow> = Vec::new();
    assert(row_views(rows@) == want.subrange(0, 0));
    for i in 0..queue.len()
        invariant
            want == rows_of(queue@, current),
            row_views(rows@) == want.subrange(0, i as int),
    {
        let ghost before = rows@;
        let r = row(&queue[i], i, current);
        let ghost x = r@;
        rows.push(r);
        assert(row_views(rows@) == row_views(before).push(x));
        assert(want.subrange(0, i + 1) == want.subrange(0, i as int).push(want[i as int]));
    }
    assert(want.subrange(0, want.len() as int) == want);
    rows
}

proof fn lemma_length_parts(queue: Seq<QueueItem>, from: int)
    requires
        0 <= from,
    ensures
        length_from(queue, from) >= 0,
    decreases queue.len() - from,
{
    if from < queue.len() {
        lemma_length_parts(queue, from + 1);
    }
}

/// The line above the queue: how many tracks are still to come, and how long
/// they take.
pub fn queue_meta(queue: &Vec<QueueItem>, current: Option<usize>, french: bool) -> (s: String)
    requires
        length_from(queue@, first_upcoming(queue@.len(), current)) + 30_000 <= u64::MAX,
    ensures
        s@ == meta_text(queue@, current, french),
{
    let n = queue.len();
    let from: usize = match current {
        Some(c) => if n > 0 && c < n - 1 {
            c + 1
        } else {
            n
        },
        None => 0,
    };
    let ghost all = length_from(queue@, from as int);
    let mut length: u64 = 0;
    let mut i: usize = from;
    while i < n
        invariant
            n == queue@.len(),
            from <= i <= n,
            length + length_from(queue@, i as int) == all,
            all + 30_000 <= u64::MAX,
        decreases n - i,
    {
        proof {
            lemma_length_parts(queue@, i + 1);
        }
        length = length + queue[i].info.duration_ms;
        i = i + 1;
    }
    let mut s = count(n - from, "track", "tracks", french);
    if length > 0 {
        let mut tail = copy_str(" · ");
        tail.push_str(long_duration(length).as_str());
        s.push_str(tail.as_str());
    } else {
        s.push_str("");
    }
    s
}

} // verus!
