//! A look at the player: what of the interface is out of date.

use vstd::prelude::*;

use crate::audio::player::TransportStatus;
use crate::controller::state::{CtlEvent, CtlState, Repeat};
use crate::online::http::truncated;
use crate::text::{copy_opt, push_text, rcut_once, same_opt, text_opt, texts};
use crate::ui::history::Page;
use crate::ui::now::short_error;
use crate::ui::refresh::{repeat_index, shown_ms};

verus! {

/// What the interface shows of the player.
#[derive(Debug)]
pub struct Pane {
    pub now_id: Option<u64>,
    pub now_title: Option<String>,
    pub playing: bool,
    pub queue_rev: u64,
    /// The line of lyrics that is lit; -1 for none.
    pub lyric: i32,
}

/// The contents of a `Pane`.
#[verifier::ext_equal]
pub struct PaneView {
    pub now_id: Option<u64>,
    pub now_title: Option<Seq<char>>,
    pub playing: bool,
    pub queue_rev: u64,
    pub lyric: i32,
}

impl View for Pane {
    type V = PaneView;

    open spec fn view(&self) -> PaneView {
        PaneView {
            now_id: self.now_id,
            now_title: text_opt(self.now_title),
            playing: self.playing,
            queue_rev: self.queue_rev,
            lyric: self.lyric,
        }
    }
}

/// The id of the current item.
pub open spec fn current_id(st: CtlState) -> Option<u64> {
    match st.current {
        Some(i) => if i < st.queue@.len() {
            Some(st.queue@[i as int].id)
        } else {
            None
        },
        None => None,
    }
}

/// The number of a line of lyrics; -1 for none.
pub open spec fn line_number(line: Option<usize>) -> i32 {
    match line {
        Some(i) => i as i32,
        None => -1i32,
    }
}

/// What the interface shows once it is up to date.
pub open spec fn shown_of(st: CtlState, line: Option<usize>) -> PaneView {
    PaneView {
        now_id: current_id(st),
        now_title: text_opt(st.stream_title),
        playing: st.status == TransportStatus::Playing,
        queue_rev: st.queue_rev,
        lyric: line_number(line),
    }
}

/// What has to be drawn again.
#[derive(Debug, Clone, Copy, PartialEq, Eq, Structural)]
pub struct Redraw {
    pub track: bool,
    pub tray: bool,
    pub queue: bool,
    pub lyric: bool,
    pub pos_ms: i32,
    pub dur_ms: i32,
    pub repeat: i32,
    pub can_next: bool,
}

/// Whether another track, or another song of a stream, plays than is shown.
pub open spec fn track_differs(p: PaneView, now: PaneView) -> bool {
    p.now_id != now.now_id || p.now_title != now.now_title
}

/// What is out of date in `p` when `now` is to be shown.
pub open spec fn is_redraw(r: Redraw, p: PaneView, now: PaneView, queue_changed: bool) -> bool {
    &&& r.track == track_differs(p, now)
    &&& r.tray == (p.playing != now.playing || track_differs(p, now))
    &&& r.queue == (queue_changed || p.queue_rev != now.queue_rev || track_differs(p, now))
    &&& r.lyric == (p.lyric != now.lyric)
}

impl Pane {
    pub fn new() -> (p: Pane)
        ensures
            p@ == (PaneView {
                now_id: None,
                now_title: None,
                playing: false,
                queue_rev: 0,
                lyric: 0,
            }),
    {
        Pane { now_id: None, now_title: None, playing: false, queue_rev: 0, lyric: 0 }
    }

    /// Takes a look at the player; the result says what to draw again.
    pub fn tick(&mut self, st: &CtlState, queue_changed: bool, line: Option<usize>) -> (r: Redraw)
        requires
            line matches Some(i) ==> i <= i32::MAX,
        ensures
            is_redraw(r, old(self)@, shown_of(*st, line), queue_changed),
            r.pos_ms == (if st.pos_ms <= i32::MAX {
                st.pos_ms as i32
            } else {
                i32::MAX
            }),
            r.dur_ms == (if st.dur_ms <= i32::MAX {
                st.dur_ms as i32
            } else {
                i32::MAX
            }),
            r.repeat == (match st.repeat {
                Repeat::Off => 0i32,
                Repeat::All => 1i32,
                Repeat::One => 2i32,
            }),
            r.can_next == (match st.current {
                Some(i) => i + 1 < st.queue@.len() || (st.repeat == Repeat::All
                    && st.queue@.len() > 0),
                None => st.queue@.len() > 0,
            }),
            final(self)@ == shown_of(*st, line),
    {
        let id = match st.current_item() {
            Some(q) => Some(q.id),
            None => None,
        };
        let playing = match st.status {
            TransportStatus::Playing => true,
            _ => false,
        };
        let lyric: i32 = match line {
            Some(i) => i as i32,
            None => -1,
        };
        let same_id = match (id, self.now_id) {
            (Some(a), Some(b)) => a == b,
            (None, None) => true,
            _ => false,
        };
        let track = !same_id || !same_opt(&self.now_title, &st.stream_title);
        let r = Redraw {
            track,
            tray: self.playing != playing || track,
            queue: queue_changed || self.queue_rev != st.queue_rev || track,
            lyric: self.lyric != lyric,
            pos_ms: shown_ms(st.pos_ms),
            dur_ms: shown_ms(st.dur_ms),
            repeat: repeat_index(st.repeat),
            can_next: st.has_next(),
        };
        self.now_id = id;
        self.now_title = copy_opt(&st.stream_title);
        self.playing = playing;
        self.queue_rev = st.queue_rev;
        self.lyric = lyric;
        r
    }
}

/// Looking again at a player that has not changed draws nothing.
pub proof fn looking_again_draws_nothing(st: CtlState, line: Option<usize>, r: Redraw)
    requires
        is_redraw(r, shown_of(st, line), shown_of(st, line), false),
    ensures
        !r.track && !r.tray && !r.queue && !r.lyric,
{
}

// ---------------------------------------------------------------------------
// Events
// ---------------------------------------------------------------------------

/// What the controller's events ask of the interface.
#[derive(Debug)]
pub struct Notes {
    pub queue_changed: bool,
    /// Messages to show.
    pub errors: Vec<String>,
    /// Whether the page shows plays that have just been counted.
    pub plays_changed: bool,
}

/// The messages of the errors among the first `n` events.
pub open spec fn messages(events: Seq<CtlEvent>, n: nat) -> Seq<Seq<char>>
    decreases n,
{
    if n == 0 || n > events.len() {
        Seq::empty()
    } else {
        let before = messages(events, (n - 1) as nat);
        match events[n - 1] {
            CtlEvent::Error(m) => before.push(
                truncated(
                    match rcut_once(m@, ": "@) {
                        Some((_, last)) => last,
                        None => m@,
                    },
                    140,
                ),
            ),
            _ => before,
        }
    }
}

pub fn read_events(events: &Vec<CtlEvent>, page: Page) -> (n: Notes)
    ensures
        n.queue_changed == (exists|i: int|
            0 <= i < events@.len() && (#[trigger] events@[i]) is QueueChanged),
        texts(n.errors@) == messages(events@, events@.len()),
        n.plays_changed == (page == Page::Home && exists|i: int|
            0 <= i < events@.len() && (#[trigger] events@[i]) is Played),
{
    let mut queue_changed = false;
    let mut played = false;
    let mut errors: Vec<String> = Vec::new();
    assert(texts(errors@) == Seq::<Seq<char>>::empty());
    for i in 0..events.len()
        invariant
            queue_changed == (exists|k: int|
                0 <= k < i && (#[trigger] events@[k]) is QueueChanged),
            texts(errors@) == messages(events@, i as nat),
            played == (exists|k: int| 0 <= k < i && (#[trigger] events@[k]) is Played),
    {
        match &events[i] {
            CtlEvent::QueueChanged => {
                queue_changed = true;
                assert(events@[i as int] is QueueChanged);
            },
            CtlEvent::Error(m) => {
                push_text(&mut errors, short_error(m.as_str()));
            },
            CtlEvent::Played(_) => {
                played = true;
                assert(events@[i as int] is Played);
            },
            _ => {},
        }
    }
    Notes { queue_changed, errors, plays_changed: played && page == Page::Home }
}

/// Whether a page is loaded again when the library has changed: not while a
/// search is typed or settings are made.
pub fn reloads_page(page: Page) -> (r: bool)
    ensures
        r == (page != Page::Search && page != Page::Settings),
{
    page != Page::Search && page != Page::Settings
}

/// Whether the list of directories is shown again.
pub fn reloads_roots(scanning: bool, page: Page) -> (r: bool)
    ensures
        r == (scanning || page == Page::Settings),
{
    scanning || page == Page::Settings
}

} // verus!
