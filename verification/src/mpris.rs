//! What is told of the player on the session bus, and what is asked of it.

use vstd::prelude::*;

use crate::audio::player::TransportStatus;
use crate::controller::state::{CtlEvent, CtlState, Repeat, TrackInfo};
use crate::text::{concat2, copy_str, dec, dec_string, push_text, same_str, texts};
use crate::uri::{is_on_the_web, on_the_web};

verus! {

pub const BUS_NAME: &'static str = "org.mpris.MediaPlayer2.ricercar";

pub const PATH: &'static str = "/org/mpris/MediaPlayer2";

/// The edge of the thumbnail that stands for a track's cover.
pub const ART_SIZE: u32 = 512;

/// The path of a queue item.
pub open spec fn item_path(id: Option<u64>) -> Seq<char> {
    match id {
        Some(id) => "/org/ricercar/track/"@ + dec(id as nat),
        None => "/org/mpris/MediaPlayer2/TrackList/NoTrack"@,
    }
}

/// The path of a queue item.
pub fn track_id(id: Option<u64>) -> (s: String)
    ensures
        s@ == item_path(id),
{
    match id {
        Some(id) => concat2("/org/ricercar/track/", dec_string(id).as_str()),
        None => copy_str("/org/mpris/MediaPlayer2/TrackList/NoTrack"),
    }
}

/// Where a track's cover comes from.
#[derive(Debug)]
pub enum Art {
    Nowhere,
    /// An image on the web.
    Url(String),
    /// A thumbnail of the art of a local file.
    Thumb { key: String, path: String },
}

/// Where a track's cover comes from: an address on the web is taken as it is,
/// a local file's art is kept by album.
pub fn art_source(t: &TrackInfo) -> (a: Art)
    ensures
        match t.cover {
            None => a is Nowhere,
            Some(hint) => if on_the_web(hint@) {
                a == Art::Url(hint)
            } else {
                a == (Art::Thumb {
                    key: match t.album_id {
                        Some(id) => id,
                        None => hint,
                    },
                    path: hint,
                })
            },
        },
{
    match &t.cover {
        None => Art::Nowhere,
        Some(hint) => {
            if is_on_the_web(hint.as_str()) {
                return Art::Url(hint.clone());
            }
            let key = match &t.album_id {
                Some(id) => id.clone(),
                None => hint.clone(),
            };
            Art::Thumb { key, path: hint.clone() }
        },
    }
}

// ---------------------------------------------------------------------------
// Metadata
// ---------------------------------------------------------------------------

/// A metadata value.
#[derive(Debug)]
pub enum MetaValue {
    Path(String),
    Text(String),
    /// A list of one text.
    List(String),
    Number(i32),
    Time(i64),
}

/// The contents of a `MetaValue`.
pub enum MetaView {
    Path(Seq<char>),
    Text(Seq<char>),
    List(Seq<char>),
    Number(i32),
    Time(i64),
}

impl View for MetaValue {
    type V = MetaView;

    open spec fn view(&self) -> MetaView {
        match self {
            MetaValue::Path(s) => MetaView::Path(s@),
            MetaValue::Text(s) => MetaView::Text(s@),
            MetaValue::List(s) => MetaView::List(s@),
            MetaValue::Number(n) => MetaView::Number(*n),
            MetaValue::Time(n) => MetaView::Time(*n),
        }
    }
}

/// The contents of a list of metadata.
pub open spec fn meta_views(v: Seq<(&'static str, MetaValue)>) -> Seq<(Seq<char>, MetaView)> {
    Seq::new(v.len(), |i: int| (v[i].0@, v[i].1@))
}

/// A value that is there, under a name.
pub open spec fn entry(name: Seq<char>, value: Option<MetaView>) -> Seq<(Seq<char>, MetaView)> {
    match value {
        Some(v) => seq![(name, v)],
        None => Seq::empty(),
    }
}

/// The song of a live stream, if it is told.
pub open spec fn song(t: TrackInfo, stream_title: Option<String>) -> Option<Seq<char>> {
    match stream_title {
        Some(s) => if t.live {
            Some(s@)
        } else {
            None
        },
        None => None,
    }
}

pub open spec fn one_text(s: Option<String>) -> Option<MetaView> {
    match s {
        Some(s) => Some(MetaView::List(s@)),
        None => None,
    }
}

pub open spec fn text_value(s: Option<String>) -> Option<MetaView> {
    match s {
        Some(s) => Some(MetaView::Text(s@)),
        None => None,
    }
}

/// The album of a track, or the station of a song.
pub open spec fn album_value(t: TrackInfo, song: Option<Seq<char>>) -> Option<MetaView> {
    match t.album {
        Some(a) => Some(MetaView::Text(a@)),
        None => match song {
            Some(_) => Some(MetaView::Text(t.title@)),
            None => None,
        },
    }
}

/// A track number as the 32 bits that it is sent as.
pub open spec fn as_i32(n: u32) -> i32 {
    if n <= i32::MAX {
        n as i32
    } else {
        (n - 0x1_0000_0000) as i32
    }
}

/// What is told of a track. Internet radio: the stream title is the song, the
/// station the album, unless the station has an album itself.
pub open spec fn track_meta(
    t: TrackInfo,
    stream_title: Option<String>,
    art: Option<String>,
) -> Seq<(Seq<char>, MetaView)> {
    let song = song(t, stream_title);
    seq![
        ("xesam:url"@, MetaView::Text(t.uri@)),
        (
            "xesam:title"@,
            MetaView::Text(
                match song {
                    Some(s) => s,
                    None => t.title@,
                },
            ),
        ),
    ] + entry("xesam:artist"@, one_text(t.artist)) + entry(
        "xesam:albumArtist"@,
        one_text(t.album_artist),
    ) + entry(
        "xesam:album"@,
        album_value(t, song),
    ) + entry(
        "xesam:trackNumber"@,
        match t.track_no {
            Some(n) => Some(MetaView::Number(as_i32(n))),
            None => None,
        },
    ) + entry("xesam:genre"@, one_text(t.genre)) + entry(
        "mpris:length"@,
        if t.duration_ms > 0 {
            Some(MetaView::Time((t.duration_ms * 1000) as i64))
        } else {
            None
        },
    ) + entry(
        "mpris:artUrl"@,
        text_value(art),
    )
}

/// What is told of the current item.
pub open spec fn metadata_of(
    id: Option<u64>,
    info: Option<TrackInfo>,
    stream_title: Option<String>,
    art: Option<String>,
) -> Seq<(Seq<char>, MetaView)> {
    seq![("mpris:trackid"@, MetaView::Path(item_path(id)))] + (match info {
        Some(t) => track_meta(t, stream_title, art),
        None => Seq::empty(),
    })
}

fn push_entry(
    v: &mut Vec<(&'static str, MetaValue)>,
    name: &'static str,
    value: Option<MetaValue>,
    Ghost(done): Ghost<Seq<(Seq<char>, MetaView)>>,
    Ghost(want): Ghost<Option<MetaView>>,
)
    requires
        meta_views(old(v)@) == done,
        match value {
            Some(x) => want == Some(x@),
            None => want is None,
        },
    ensures
        meta_views(final(v)@) == done + entry(name@, want),
{
    let ghost before = v@;
    assert(done + Seq::<(Seq<char>, MetaView)>::empty() == done);
    if let Some(x) = value {
        let ghost y = x@;
        v.push((name, x));
        assert(meta_views(v@) == meta_views(before).push((name@, y)));
        assert(done.push((name@, y)) == done + seq![(name@, y)]);
    }
}

fn list_of(s: &Option<String>) -> (r: Option<MetaValue>)
    ensures
        match r {
            Some(x) => one_text(*s) == Some(x@),
            None => one_text(*s) is None,
        },
{
    match s {
        Some(t) => Some(MetaValue::List(t.clone())),
        None => None,
    }
}

fn number_of(n: u32) -> (r: i32)
    ensures
        r == as_i32(n),
{
    if n <= 0x7fff_ffff {
        n as i32
    } else {
        (n as i64 - 0x1_0000_0000) as i32
    }
}

fn track_metadata(t: &TrackInfo, stream_title: &Option<String>, art: Option<String>) -> (v: Vec<
    (&'static str, MetaValue),
>)
    requires
        t.duration_ms * 1000 <= i64::MAX,
    ensures
        meta_views(v@) == track_meta(*t, *stream_title, art),
{
    let mut v: Vec<(&'static str, MetaValue)> = Vec::new();
    v.push(("xesam:url", MetaValue::Text(t.uri.clone())));
    let heard: Option<String> = match stream_title {
        Some(s) => if t.live {
            Some(s.clone())
        } else {
            None
        },
        None => None,
    };
    let title = match &heard {
        Some(s) => s.clone(),
        None => t.title.clone(),
    };
    v.push(("xesam:title", MetaValue::Text(title)));
    let ghost song = song(*t, *stream_title);
    let ghost p0 = seq![
        ("xesam:url"@, MetaView::Text(t.uri@)),
        (
            "xesam:title"@,
            MetaView::Text(
                match song {
                    Some(s) => s,
                    None => t.title@,
                },
            ),
        ),
    ];
    assert(meta_views(v@) == p0);
    push_entry(&mut v, "xesam:artist", list_of(&t.artist), Ghost(p0), Ghost(one_text(t.artist)));
    let ghost p1 = p0 + entry("xesam:artist"@, one_text(t.artist));
    push_entry(
        &mut v,
        "xesam:albumArtist",
        list_of(&t.album_artist),
        Ghost(p1),
        Ghost(one_text(t.album_artist)),
    );
    let ghost p2 = p1 + entry("xesam:albumArtist"@, one_text(t.album_artist));
    let album: Option<MetaValue> = match (&t.album, &heard) {
        (Some(a), _) => Some(MetaValue::Text(a.clone())),
        (None, Some(_)) => Some(MetaValue::Text(t.title.clone())),
        (None, None) => None,
    };
    let ghost want3 = album_value(*t, song);
    push_entry(&mut v, "xesam:album", album, Ghost(p2), Ghost(want3));
    let ghost p3 = p2 + entry("xesam:album"@, want3);
    let number: Option<MetaValue> = match t.track_no {
        Some(n) => Some(MetaValue::Number(number_of(n))),
        None => None,
    };
    let ghost want4 = match t.track_no {
        Some(n) => Some(MetaView::Number(as_i32(n))),
        None => None,
    };
    push_entry(&mut v, "xesam:trackNumber", number, Ghost(p3), Ghost(want4));
    let ghost p4 = p3 + entry("xesam:trackNumber"@, want4);
    push_entry(&mut v, "xesam:genre", list_of(&t.genre), Ghost(p4), Ghost(one_text(t.genre)));
    let ghost p5 = p4 + entry("xesam:genre"@, one_text(t.genre));
    let length: Option<MetaValue> = if t.duration_ms > 0 {
        Some(MetaValue::Time((t.duration_ms * 1000) as i64))
    } else {
        None
    };
    let ghost want6 = if t.duration_ms > 0 {
        Some(MetaView::Time((t.duration_ms * 1000) as i64))
    } else {
        None
    };
    push_entry(&mut v, "mpris:length", length, Ghost(p5), Ghost(want6));
    let ghost p6 = p5 + entry("mpris:length"@, want6);
    let ghost want7 = text_value(art);
    let url: Option<MetaValue> = match art {
        Some(a) => Some(MetaValue::Text(a)),
        None => None,
    };
    push_entry(&mut v, "mpris:artUrl", url, Ghost(p6), Ghost(want7));
    v
}

/// What is told of the current item; `art` is the address of its cover.
pub fn metadata(
    id: Option<u64>,
    info: Option<&TrackInfo>,
    stream_title: &Option<String>,
    art: Option<String>,
) -> (v: Vec<(&'static str, MetaValue)>)
    requires
        info matches Some(t) ==> t.duration_ms * 1000 <= i64::MAX,
    ensures
        meta_views(v@) == metadata_of(
            id,
            match info {
                Some(t) => Some(*t),
                None => None,
            },
            *stream_title,
            art,
        ),
{
    let mut v: Vec<(&'static str, MetaValue)> = Vec::new();
    v.push(("mpris:trackid", MetaValue::Path(track_id(id))));
    let ghost head = seq![("mpris:trackid"@, MetaView::Path(item_path(id)))];
    assert(meta_views(v@) == head);
    assert(head + Seq::<(Seq<char>, MetaView)>::empty() == head);
    if let Some(t) = info {
        let mut more = track_metadata(t, stream_title, art);
        let ghost a = v@;
        let ghost b = more@;
        v.append(&mut more);
        assert(v@ == a + b);
        assert(meta_views(a + b) == meta_views(a) + meta_views(b));
    }
    v
}

/// The place of a name among those that are told.
spec fn name_rank(name: Seq<char>) -> int {
    if name == "mpris:trackid"@ {
        0
    } else if name == "xesam:url"@ {
        1
    } else if name == "xesam:title"@ {
        2
    } else if name == "xesam:artist"@ {
        3
    } else if name == "xesam:albumArtist"@ {
        4
    } else if name == "xesam:album"@ {
        5
    } else if name == "xesam:trackNumber"@ {
        6
    } else if name == "xesam:genre"@ {
        7
    } else if name == "mpris:length"@ {
        8
    } else if name == "mpris:artUrl"@ {
        9
    } else {
        10
    }
}

/// Whether names come in the order of their places, each at most once, and
/// those places lie from `lo` to below `hi`.
#[verifier::opaque]
spec fn in_name_order(m: Seq<(Seq<char>, MetaView)>, lo: int, hi: int) -> bool {
    &&& forall|i: int, j: int|
        0 <= i < j < m.len() ==> name_rank((#[trigger] m[i]).0) < name_rank((#[trigger] m[j]).0)
    &&& forall|i: int| 0 <= i < m.len() ==> lo <= name_rank((#[trigger] m[i]).0) < hi
}

proof fn lemma_name_ranks()
    ensures
        name_rank("mpris:trackid"@) == 0,
        name_rank("xesam:url"@) == 1,
        name_rank("xesam:title"@) == 2,
        name_rank("xesam:artist"@) == 3,
        name_rank("xesam:albumArtist"@) == 4,
        name_rank("xesam:album"@) == 5,
        name_rank("xesam:trackNumber"@) == 6,
        name_rank("xesam:genre"@) == 7,
        name_rank("mpris:length"@) == 8,
        name_rank("mpris:artUrl"@) == 9,
{
    reveal_strlit("mpris:trackid");
    reveal_strlit("xesam:url");
    reveal_strlit("xesam:title");
    reveal_strlit("xesam:artist");
    reveal_strlit("xesam:albumArtist");
    reveal_strlit("xesam:album");
    reveal_strlit("xesam:trackNumber");
    reveal_strlit("xesam:genre");
    reveal_strlit("mpris:length");
    reveal_strlit("mpris:artUrl");
    assert("mpris:trackid"@.len() == 13 && "mpris:trackid"@[0] == 'm' && "mpris:trackid"@[6] == 't' && "mpris:trackid"@[7] == 'r');
    assert("xesam:url"@.len() == 9 && "xesam:url"@[0] == 'x' && "xesam:url"@[6] == 'u' && "xesam:url"@[7] == 'r');
    assert("xesam:title"@.len() == 11 && "xesam:title"@[0] == 'x' && "xesam:title"@[6] == 't' && "xesam:title"@[7] == 'i');
    assert("xesam:artist"@.len() == 12 && "xesam:artist"@[0] == 'x' && "xesam:artist"@[6] == 'a' && "xesam:artist"@[7] == 'r');
    assert("xesam:albumArtist"@.len() == 17 && "xesam:albumArtist"@[0] == 'x' && "xesam:albumArtist"@[6] == 'a' && "xesam:albumArtist"@[7] == 'l');
    assert("xesam:album"@.len() == 11 && "xesam:album"@[0] == 'x' && "xesam:album"@[6] == 'a' && "xesam:album"@[7] == 'l');
    assert("xesam:trackNumber"@.len() == 17 && "xesam:trackNumber"@[0] == 'x' && "xesam:trackNumber"@[6] == 't' && "xesam:trackNumber"@[7] == 'r');
    assert("xesam:genre"@.len() == 11 && "xesam:genre"@[0] == 'x' && "xesam:genre"@[6] == 'g' && "xesam:genre"@[7] == 'e');
    assert("mpris:length"@.len() == 12 && "mpris:length"@[0] == 'm' && "mpris:length"@[6] == 'l' && "mpris:length"@[7] == 'e');
    assert("mpris:artUrl"@.len() == 12 && "mpris:artUrl"@[0] == 'm' && "mpris:artUrl"@[6] == 'a' && "mpris:artUrl"@[7] == 'r');
}

proof fn lemma_entry_behind(
    m: Seq<(Seq<char>, MetaView)>,
    name: Seq<char>,
    value: Option<MetaView>,
    lo: int,
    rank: int,
)
    requires
        in_name_order(m, lo, rank),
        name_rank(name) == rank,
        lo <= rank,
    ensures
        in_name_order(m + entry(name, value), lo, rank + 1),
{
    reveal(in_name_order);
}

proof fn lemma_track_in_order(t: TrackInfo, stream_title: Option<String>, art: Option<String>)
    ensures
        in_name_order(track_meta(t, stream_title, art), 1, 10),
{
    lemma_name_ranks();
    let song = song(t, stream_title);
    let p0 = seq![
        ("xesam:url"@, MetaView::Text(t.uri@)),
        (
            "xesam:title"@,
            MetaView::Text(
                match song {
                    Some(s) => s,
                    None => t.title@,
                },
            ),
        ),
    ];
    assert(in_name_order(p0, 1, 3)) by {
        reveal(in_name_order);
    }
    let number = match t.track_no {
        Some(n) => Some(MetaView::Number(as_i32(n))),
        None => None,
    };
    let length = if t.duration_ms > 0 {
        Some(MetaView::Time((t.duration_ms * 1000) as i64))
    } else {
        None
    };
    lemma_entry_behind(p0, "xesam:artist"@, one_text(t.artist), 1, 3);
    let p1 = p0 + entry("xesam:artist"@, one_text(t.artist));
    lemma_entry_behind(p1, "xesam:albumArtist"@, one_text(t.album_artist), 1, 4);
    let p2 = p1 + entry("xesam:albumArtist"@, one_text(t.album_artist));
    lemma_entry_behind(p2, "xesam:album"@, album_value(t, song), 1, 5);
    let p3 = p2 + entry("xesam:album"@, album_value(t, song));
    lemma_entry_behind(p3, "xesam:trackNumber"@, number, 1, 6);
    let p4 = p3 + entry("xesam:trackNumber"@, number);
    lemma_entry_behind(p4, "xesam:genre"@, one_text(t.genre), 1, 7);
    let p5 = p4 + entry("xesam:genre"@, one_text(t.genre));
    lemma_entry_behind(p5, "mpris:length"@, length, 1, 8);
    let p6 = p5 + entry("mpris:length"@, length);
    lemma_entry_behind(p6, "mpris:artUrl"@, text_value(art), 1, 9);
}

/// No name is told twice.
pub proof fn names_are_told_once(
    id: Option<u64>,
    info: Option<TrackInfo>,
    stream_title: Option<String>,
    art: Option<String>,
)
    ensures
        ({
            let m = metadata_of(id, info, stream_title, art);
            forall|i: int, j: int|
                0 <= i < j < m.len() ==> (#[trigger] m[i]).0 != (#[trigger] m[j]).0
        }),
{
    lemma_name_ranks();
    reveal(in_name_order);
    if let Some(t) = info {
        lemma_track_in_order(t, stream_title, art);
    }
    let m = metadata_of(id, info, stream_title, art);
    assert forall|i: int, j: int| 0 <= i < j < m.len() implies (#[trigger] m[i]).0 != (
    #[trigger] m[j]).0 by {
        assert(name_rank(m[i].0) < name_rank(m[j].0));
    }
}

// ---------------------------------------------------------------------------
// Properties and methods
// ---------------------------------------------------------------------------

/// The name of a playback status.
pub fn playback_status(s: TransportStatus) -> (r: &'static str)
    ensures
        r@ == (match s {
            TransportStatus::Playing => "Playing"@,
            TransportStatus::Paused => "Paused"@,
            TransportStatus::Stopped => "Stopped"@,
        }),
{
    match s {
        TransportStatus::Playing => "Playing",
        TransportStatus::Paused => "Paused",
        TransportStatus::Stopped => "Stopped",
    }
}

/// The name of a repeat mode.
pub open spec fn loop_name(r: Repeat) -> Seq<char> {
    match r {
        Repeat::Off => "None"@,
        Repeat::All => "Playlist"@,
        Repeat::One => "Track"@,
    }
}

/// The repeat mode of a name; an unknown name turns it off.
pub open spec fn loop_mode(name: Seq<char>) -> Repeat {
    if name == "Track"@ {
        Repeat::One
    } else if name == "Playlist"@ {
        Repeat::All
    } else {
        Repeat::Off
    }
}

/// The name of a repeat mode.
pub fn loop_status(r: Repeat) -> (s: &'static str)
    ensures
        s@ == loop_name(r),
{
    match r {
        Repeat::Off => "None",
        Repeat::All => "Playlist",
        Repeat::One => "Track",
    }
}

/// The repeat mode of a name.
pub fn set_loop_status(name: &str) -> (r: Repeat)
    ensures
        r == loop_mode(name@),
{
    if same_str(name, "Track") {
        Repeat::One
    } else if same_str(name, "Playlist") {
        Repeat::All
    } else {
        Repeat::Off
    }
}

/// A repeat mode that is told is understood.
pub proof fn loop_names_are_understood(r: Repeat)
    ensures
        loop_mode(loop_name(r)) == r,
{
    reveal_strlit("None");
    reveal_strlit("Playlist");
    reveal_strlit("Track");
    assert("None"@.len() == 4);
    assert("Playlist"@.len() == 8);
    assert("Track"@.len() == 5);
}

/// A seek by microseconds in milliseconds, towards zero.
pub fn seek(offset_us: i64) -> (ms: i64)
    ensures
        offset_us >= 0 ==> ms == offset_us / 1000,
        offset_us < 0 ==> ms == -((-offset_us) / 1000),
{
    if offset_us >= 0 {
        offset_us / 1000
    } else {
        let m = -((-(offset_us as i128)) / 1000);
        m as i64
    }
}

/// Where to seek to on a request for a position in a track: nowhere where the
/// track is not the current one, or the position before its start.
pub fn set_position(current: Option<u64>, track: &str, position_us: i64) -> (ms: Option<u64>)
    ensures
        ms == (if track@ == item_path(current) && position_us >= 0 {
            Some((position_us / 1000) as u64)
        } else {
            None
        }),
{
    if position_us >= 0 && same_str(track, track_id(current).as_str()) {
        Some(position_us as u64 / 1000)
    } else {
        None
    }
}

pub fn can_go_previous(st: &CtlState) -> (r: bool)
    ensures
        r == (st.queue@.len() > 0),
{
    st.queue.len() > 0
}

pub fn can_play(st: &CtlState) -> (r: bool)
    ensures
        r == (st.queue@.len() > 0),
{
    st.queue.len() > 0
}

pub fn can_seek(st: &CtlState) -> (r: bool)
    ensures
        r == (st.status != TransportStatus::Stopped && st.dur_ms > 0),
{
    st.status != TransportStatus::Stopped && st.dur_ms > 0
}

/// A position in microseconds.
pub fn position(ms: u64) -> (us: i64)
    requires
        ms * 1000 <= i64::MAX,
    ensures
        us == ms * 1000,
{
    (ms * 1000) as i64
}

/// What changed for those who listen on the bus.
#[derive(Debug, Clone, Copy, PartialEq, Eq, Structural)]
pub enum Signal {
    Metadata,
    CanSeek,
    CanGoNext,
    CanGoPrevious,
    CanPlay,
    PlaybackStatus,
    Volume,
    LoopStatus,
    Shuffle,
    /// A jump, to milliseconds.
    Seeked(u64),
}

/// What an event is told as, in order.
pub open spec fn signals_of(ev: CtlEvent) -> Seq<Signal> {
    match ev {
        CtlEvent::TrackChanged => seq![
            Signal::Metadata,
            Signal::CanSeek,
            Signal::CanGoNext,
            Signal::CanGoPrevious,
            Signal::CanPlay,
        ],
        CtlEvent::StreamTitle(_) => seq![
            Signal::Metadata,
            Signal::CanSeek,
            Signal::CanGoNext,
            Signal::CanGoPrevious,
            Signal::CanPlay,
        ],
        CtlEvent::StatusChanged(_) => seq![Signal::PlaybackStatus, Signal::CanSeek],
        CtlEvent::VolumeChanged => seq![Signal::Volume],
        CtlEvent::Seeked(ms) => seq![Signal::Seeked(ms)],
        CtlEvent::QueueChanged => seq![
            Signal::LoopStatus,
            Signal::Shuffle,
            Signal::CanGoNext,
            Signal::CanGoPrevious,
            Signal::CanPlay,
        ],
        CtlEvent::Played(_) => Seq::empty(),
        CtlEvent::Error(_) => Seq::empty(),
    }
}

/// What an event is told as, in order.
pub fn signals(ev: &CtlEvent) -> (v: Vec<Signal>)
    ensures
        v@ == signals_of(*ev),
{
    let mut v: Vec<Signal> = Vec::new();
    match ev {
        CtlEvent::TrackChanged | CtlEvent::StreamTitle(_) => {
            v.push(Signal::Metadata);
            v.push(Signal::CanSeek);
            v.push(Signal::CanGoNext);
            v.push(Signal::CanGoPrevious);
            v.push(Signal::CanPlay);
        },
        CtlEvent::StatusChanged(_) => {
            v.push(Signal::PlaybackStatus);
            v.push(Signal::CanSeek);
        },
        CtlEvent::VolumeChanged => {
            v.push(Signal::Volume);
        },
        CtlEvent::Seeked(ms) => {
            v.push(Signal::Seeked(*ms));
        },
        CtlEvent::QueueChanged => {
            v.push(Signal::LoopStatus);
            v.push(Signal::Shuffle);
            v.push(Signal::CanGoNext);
            v.push(Signal::CanGoPrevious);
            v.push(Signal::CanPlay);
        },
        CtlEvent::Played(_) => {},
        CtlEvent::Error(_) => {},
    }
    assert(v@ == signals_of(*ev));
    v
}

/// The kinds of addresses that can be opened.
pub fn supported_uri_schemes() -> (v: Vec<String>)
    ensures
        texts(v@) == seq!["file"@, "http"@, "https"@],
{
    let mut v: Vec<String> = Vec::new();
    push_text(&mut v, copy_str("file"));
    push_text(&mut v, copy_str("http"));
    push_text(&mut v, copy_str("https"));
    assert(texts(v@) == seq!["file"@, "http"@, "https"@]);
    v
}

/// The kinds of files that can be opened.
pub fn supported_media_types() -> (v: Vec<String>)
    ensures
        texts(v@) == seq![
            "audio/flac"@,
            "audio/x-flac"@,
            "audio/wav"@,
            "audio/x-wav"@,
            "audio/aiff"@,
            "audio/mpeg"@,
            "audio/ogg"@,
            "audio/opus"@,
            "audio/mp4"@,
            "audio/aac"@,
        ],
{
    let mut v: Vec<String> = Vec::new();
    push_text(&mut v, copy_str("audio/flac"));
    push_text(&mut v, copy_str("audio/x-flac"));
    push_text(&mut v, copy_str("audio/wav"));
    push_text(&mut v, copy_str("audio/x-wav"));
    push_text(&mut v, copy_str("audio/aiff"));
    push_text(&mut v, copy_str("audio/mpeg"));
    push_text(&mut v, copy_str("audio/ogg"));
    push_text(&mut v, copy_str("audio/opus"));
    push_text(&mut v, copy_str("audio/mp4"));
    push_text(&mut v, copy_str("audio/aac"));
    assert(texts(v@) == seq![
        "audio/flac"@,
        "audio/x-flac"@,
        "audio/wav"@,
        "audio/x-wav"@,
        "audio/aiff"@,
        "audio/mpeg"@,
        "audio/ogg"@,
        "audio/opus"@,
        "audio/mp4"@,
        "audio/aac"@,
    ]);
    v
}

/// The metadata of a track says of it what the track says, each entry under its
/// own name; its length is in microseconds.
pub proof fn metadata_says_what_plays(
    t: TrackInfo,
    art: String,
    artist: String,
    by: String,
    album: String,
    genre: String,
    no: u32,
)
    requires
        t.artist == Some(artist),
        t.album_artist == Some(by),
        t.album == Some(album),
        t.genre == Some(genre),
        t.track_no == Some(no),
        no <= i32::MAX,
        0 < t.duration_ms,
        t.duration_ms * 1000 <= i64::MAX,
    ensures
        track_meta(t, None, Some(art)) == seq![
            ("xesam:url"@, MetaView::Text(t.uri@)),
            ("xesam:title"@, MetaView::Text(t.title@)),
            ("xesam:artist"@, MetaView::List(artist@)),
            ("xesam:albumArtist"@, MetaView::List(by@)),
            ("xesam:album"@, MetaView::Text(album@)),
            ("xesam:trackNumber"@, MetaView::Number(no as i32)),
            ("xesam:genre"@, MetaView::List(genre@)),
            ("mpris:length"@, MetaView::Time((t.duration_ms * 1000) as i64)),
            ("mpris:artUrl"@, MetaView::Text(art@)),
        ],
{
}

/// Of a live stream the announced title is shown, and the station in place of an
/// album; of anything else the title is its own.
pub proof fn a_stream_shows_its_song(t: TrackInfo, title: String)
    requires
        t.artist is None,
        t.album_artist is None,
        t.album is None,
        t.genre is None,
        t.track_no is None,
        t.duration_ms == 0,
    ensures
        t.live ==> track_meta(t, Some(title), None) == seq![
            ("xesam:url"@, MetaView::Text(t.uri@)),
            ("xesam:title"@, MetaView::Text(title@)),
            ("xesam:album"@, MetaView::Text(t.title@)),
        ],
        !t.live ==> track_meta(t, Some(title), None) == seq![
            ("xesam:url"@, MetaView::Text(t.uri@)),
            ("xesam:title"@, MetaView::Text(t.title@)),
        ],
{
}

/// The metadata begins with the id of the item, and is nothing else without one.
pub proof fn metadata_names_the_item(
    id: u64,
    t: TrackInfo,
    stream_title: Option<String>,
    art: Option<String>,
)
    ensures
        metadata_of(Some(id), Some(t), stream_title, art)[0] == (
            "mpris:trackid"@,
            MetaView::Path("/org/ricercar/track/"@ + dec(id as nat)),
        ),
        metadata_of(Some(id), Some(t), stream_title, art).subrange(
            1,
            metadata_of(Some(id), Some(t), stream_title, art).len() as int,
        ) == track_meta(t, stream_title, art),
        metadata_of(None, None, stream_title, art) == seq![
            ("mpris:trackid"@, MetaView::Path("/org/mpris/MediaPlayer2/TrackList/NoTrack"@)),
        ],
{
    let m = metadata_of(Some(id), Some(t), stream_title, art);
    assert(m.subrange(1, m.len() as int) == track_meta(t, stream_title, art));
}

/// The loop modes have the names of the interface.
pub proof fn loop_modes_have_their_names()
    ensures
        loop_name(Repeat::Off) == "None"@,
        loop_name(Repeat::All) == "Playlist"@,
        loop_name(Repeat::One) == "Track"@,
        loop_mode("Track"@) == Repeat::One,
        loop_mode("Playlist"@) == Repeat::All,
        loop_mode("None"@) == Repeat::Off,
{
    reveal_strlit("Track");
    reveal_strlit("Playlist");
    reveal_strlit("None");
    assert("Track"@.len() == 5);
    assert("Playlist"@.len() == 8);
    assert("None"@.len() == 4);
}

/// Every change that a client can see is signalled: a new track or title by the
/// metadata, the status, the volume and a seek by their own signals, and the
/// queue by its modes and by what can be done with it.
pub proof fn changes_are_signalled(
    ev: CtlEvent,
    title: String,
    status: TransportStatus,
    ms: u64,
)
    ensures
        signals_of(CtlEvent::TrackChanged)[0] is Metadata,
        signals_of(CtlEvent::StreamTitle(title))[0] is Metadata,
        signals_of(CtlEvent::TrackChanged).contains(Signal::CanSeek),
        signals_of(CtlEvent::TrackChanged).contains(Signal::CanGoNext),
        signals_of(CtlEvent::StatusChanged(status)) == seq![Signal::PlaybackStatus, Signal::CanSeek],
        signals_of(CtlEvent::VolumeChanged) == seq![Signal::Volume],
        signals_of(CtlEvent::Seeked(ms)) == seq![Signal::Seeked(ms)],
        signals_of(CtlEvent::QueueChanged).contains(Signal::LoopStatus),
        signals_of(CtlEvent::QueueChanged).contains(Signal::Shuffle),
        signals_of(CtlEvent::QueueChanged).contains(Signal::CanGoNext),
        signals_of(CtlEvent::QueueChanged).contains(Signal::CanPlay),
        ev is Played || ev is Error ==> signals_of(ev).len() == 0,
{
    assert(signals_of(CtlEvent::TrackChanged)[1] == Signal::CanSeek);
    assert(signals_of(CtlEvent::TrackChanged)[2] == Signal::CanGoNext);
    assert(signals_of(CtlEvent::QueueChanged)[0] == Signal::LoopStatus);
    assert(signals_of(CtlEvent::QueueChanged)[1] == Signal::Shuffle);
    assert(signals_of(CtlEvent::QueueChanged)[2] == Signal::CanGoNext);
    assert(signals_of(CtlEvent::QueueChanged)[4] == Signal::CanPlay);
}

/// Positions and seeks are told in microseconds and kept in milliseconds.
pub proof fn positions_are_in_microseconds(ms: u64, us: i64, offset_us: i64, offset_ms: i64)
    requires
        call_ensures(position, (ms,), us),
        call_ensures(seek, (offset_us,), offset_ms),
    ensures
        us == 1000 * ms,
        offset_us >= 0 ==> 1000 * offset_ms <= offset_us < 1000 * (offset_ms + 1),
        offset_us < 0 ==> 1000 * (offset_ms - 1) < offset_us <= 1000 * offset_ms,
{
}

/// The status is told by its name.
pub proof fn the_status_is_told_by_name(s: TransportStatus, r: &'static str)
    requires
        call_ensures(playback_status, (s,), r),
    ensures
        s == TransportStatus::Playing ==> r@ == "Playing"@,
        s == TransportStatus::Paused ==> r@ == "Paused"@,
        s == TransportStatus::Stopped ==> r@ == "Stopped"@,
{
}

/// A position is set for the track that plays, not for another one, and never
/// before its start.
pub proof fn a_position_is_set_for_the_track(id: u64, track: &str, us: i64, ms: Option<u64>)
    requires
        call_ensures(set_position, (Some(id), track, us), ms),
    ensures
        track@ != "/org/ricercar/track/"@ + dec(id as nat) ==> ms is None,
        us < 0 ==> ms is None,
        track@ == "/org/ricercar/track/"@ + dec(id as nat) && us >= 0 ==> (ms matches Some(p) && p
            * 1000 <= us < (p + 1) * 1000),
{
}

/// A seek is offered while something with a length is loaded, and play wherever
/// the queue holds something.
pub proof fn what_can_be_done_is_offered(st: CtlState, seeks: bool, plays: bool, back: bool)
    requires
        call_ensures(can_seek, (&st,), seeks),
        call_ensures(can_play, (&st,), plays),
        call_ensures(can_go_previous, (&st,), back),
    ensures
        seeks <==> (st.status == TransportStatus::Playing || st.status == TransportStatus::Paused)
            && st.dur_ms > 0,
        plays <==> st.queue@.len() > 0,
        back <==> st.queue@.len() > 0,
{
}

/// A cover on the web is shown by its address, one on disk as a thumbnail of its
/// album.
pub proof fn a_cover_is_shown_from_where_it_is(t: TrackInfo, hint: String, a: Art)
    requires
        t.cover == Some(hint),
        call_ensures(art_source, (&t,), a),
    ensures
        on_the_web(hint@) ==> a == Art::Url(hint),
        !on_the_web(hint@) && t.album_id is None ==> a == (Art::Thumb { key: hint, path: hint }),
        !on_the_web(hint@) ==> (t.album_id matches Some(id) ==> a == (Art::Thumb {
            key: id,
            path: hint,
        })),
{
}

} // verus!
