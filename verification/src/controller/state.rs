//! What the controller holds: queue items, modes, events.

use vstd::prelude::*;
use vstd::slice::slice_subrange;

use crate::audio::gain::TrackOpts;
use crate::audio::player::{ChainInfo, ChainView, TransportStatus};
use crate::config::ReplayGain;
use crate::library::meta::TagInfo;
use crate::library::tracks::Track;
use crate::text::{chars_of, copy_opt, copy_str, string_of, text_opt};
use crate::uri::{path_of, percent_decode, percent_decoded, uri_to_path};

verus! {

/// Metadata about a playable item (library track, pushed stream, radio). Gains
/// and peaks are the bits of `f32` values.
#[derive(Debug)]
pub struct TrackInfo {
    pub uri: String,
    /// Local file backing the item, when there is one.
    pub path: Option<String>,
    pub title: String,
    pub artist: Option<String>,
    pub album: Option<String>,
    pub album_artist: Option<String>,
    pub album_id: Option<String>,
    pub duration_ms: u64,
    /// Cover hint: a local track path or an http(s) image URL.
    pub cover: Option<String>,
    pub track_no: Option<u32>,
    pub year: Option<i32>,
    pub genre: Option<String>,
    pub sample_rate: Option<u32>,
    pub bits: Option<u8>,
    pub codec: Option<String>,
    pub rg_track_gain: Option<u32>,
    pub rg_track_peak: Option<u32>,
    pub rg_album_gain: Option<u32>,
    pub rg_album_peak: Option<u32>,
    pub mb_album_id: Option<String>,
    /// Endless stream (internet radio): no duration, no gapless successor.
    pub live: bool,
}

impl Clone for TrackInfo {
    fn clone(&self) -> (r: TrackInfo)
        ensures
            r == *self,
    {
        TrackInfo {
            uri: self.uri.clone(),
            path: copy_opt(&self.path),
            title: self.title.clone(),
            artist: copy_opt(&self.artist),
            album: copy_opt(&self.album),
            album_artist: copy_opt(&self.album_artist),
            album_id: copy_opt(&self.album_id),
            duration_ms: self.duration_ms,
            cover: copy_opt(&self.cover),
            track_no: self.track_no,
            year: self.year,
            genre: copy_opt(&self.genre),
            sample_rate: self.sample_rate,
            bits: self.bits,
            codec: copy_opt(&self.codec),
            rg_track_gain: self.rg_track_gain,
            rg_track_peak: self.rg_track_peak,
            rg_album_gain: self.rg_album_gain,
            rg_album_peak: self.rg_album_peak,
            mb_album_id: copy_opt(&self.mb_album_id),
            live: self.live,
        }
    }
}

/// Whether nothing is known of an item but its URI and its title.
pub open spec fn bare_info(t: TrackInfo) -> bool {
    &&& t.path is None
    &&& t.artist is None
    &&& t.album is None
    &&& t.album_artist is None
    &&& t.album_id is None
    &&& t.duration_ms == 0
    &&& t.cover is None
    &&& t.track_no is None
    &&& t.year is None
    &&& t.genre is None
    &&& t.sample_rate is None
    &&& t.bits is None
    &&& t.codec is None
    &&& t.rg_track_gain is None
    &&& t.rg_track_peak is None
    &&& t.rg_album_gain is None
    &&& t.rg_album_peak is None
    &&& t.mb_album_id is None
    &&& !t.live
}

impl Default for TrackInfo {
    fn default() -> (r: TrackInfo)
        ensures
            bare_info(r),
            r.uri@.len() == 0,
            r.title@.len() == 0,
    {
        TrackInfo {
            uri: String::new(),
            path: None,
            title: String::new(),
            artist: None,
            album: None,
            album_artist: None,
            album_id: None,
            duration_ms: 0,
            cover: None,
            track_no: None,
            year: None,
            genre: None,
            sample_rate: None,
            bits: None,
            codec: None,
            rg_track_gain: None,
            rg_track_peak: None,
            rg_album_gain: None,
            rg_album_peak: None,
            mb_album_id: None,
            live: false,
        }
    }
}

/// A library track as a queue shows it.
pub open spec fn info_of(t: Track) -> TrackInfo {
    TrackInfo {
        uri: t.uri,
        path: Some(t.path),
        title: t.title,
        artist: t.artist,
        album: t.album,
        album_artist: t.album_artist,
        album_id: Some(t.album_id),
        duration_ms: t.duration_ms,
        cover: Some(t.path),
        track_no: t.track,
        year: t.year,
        genre: t.genre,
        sample_rate: t.sample_rate,
        bits: t.bits,
        codec: t.codec,
        rg_track_gain: t.rg_track_gain,
        rg_track_peak: t.rg_track_peak,
        rg_album_gain: t.rg_album_gain,
        rg_album_peak: t.rg_album_peak,
        mb_album_id: t.mb_album_id,
        live: false,
    }
}

/// Where the first `?` or `#` of a URI stands, from `i` on.
pub open spec fn query_start(uri: Seq<char>, i: int) -> int
    decreases uri.len() - i,
{
    if i < 0 || i >= uri.len() {
        uri.len() as int
    } else if uri[i] == '?' || uri[i] == '#' {
        i
    } else {
        query_start(uri, i + 1)
    }
}

/// What stands behind the last slash in the first `n` characters.
pub open spec fn after_slash(s: Seq<char>, n: int) -> int
    decreases n,
{
    if n <= 0 || n > s.len() {
        0
    } else if s[n - 1] == '/' {
        n
    } else {
        after_slash(s, n - 1)
    }
}

/// The name in a URI: behind its last slash, without query and fragment; the
/// whole URI where that is empty.
pub open spec fn name_in(uri: Seq<char>) -> Seq<char> {
    let path = uri.subrange(0, query_start(uri, 0));
    let name = path.subrange(after_slash(path, path.len() as int), path.len() as int);
    if name.len() > 0 {
        name
    } else {
        uri
    }
}

fn uri_name(uri: &str) -> (r: String)
    ensures
        r@ == name_in(uri@),
{
    let u = chars_of(uri);
    let mut end: usize = 0;
    while end < u.len() && u[end] != '?' && u[end] != '#'
        invariant
            end <= u.len(),
            u@ == uri@,
            query_start(uri@, 0) == query_start(uri@, end as int),
        decreases u.len() - end,
    {
        end = end + 1;
    }
    let path = slice_subrange(u.as_slice(), 0, end);
    let mut n: usize = path.len();
    while n > 0 && path[n - 1] != '/'
        invariant
            n <= path.len(),
            after_slash(path@, path@.len() as int) == after_slash(path@, n as int),
        decreases n,
    {
        n = n - 1;
    }
    if n < path.len() {
        string_of(slice_subrange(path, n, path.len()))
    } else {
        copy_str(uri)
    }
}

/// What is known of a bare URI: the tags of the file that it names, else the
/// name in it.
pub open spec fn is_uri_info(r: TrackInfo, uri: Seq<char>, tags: TagInfo) -> bool {
    &&& r.uri@ == uri
    &&& match path_of(uri) {
        Some(path) => {
            &&& text_opt(r.path) == Some(path)
            &&& text_opt(r.cover) == Some(path)
            &&& r.title@ == (match tags.title {
                Some(t) => t@,
                None => Seq::empty(),
            })
            &&& r.artist == tags.artist
            &&& r.album == tags.album
            &&& r.album_artist == tags.album_artist
            &&& r.duration_ms == tags.duration_ms
            &&& r.track_no == tags.track
            &&& r.year == tags.year
            &&& r.sample_rate == tags.sample_rate
            &&& r.bits == tags.bits
            &&& r.codec == tags.codec
            &&& r.album_id is None
            &&& r.genre is None
            &&& r.rg_track_gain is None
            &&& r.rg_track_peak is None
            &&& r.rg_album_gain is None
            &&& r.rg_album_peak is None
            &&& r.mb_album_id is None
            &&& !r.live
        },
        None => bare_info(r) && r.title@ == percent_decoded(name_in(uri)),
    }
}

/// What is queued for a control point: what it says of the track, or what is
/// known of the URI; its URI counts either way.
pub open spec fn is_remote_info(
    r: TrackInfo,
    uri: Seq<char>,
    info: Option<TrackInfo>,
    tags: TagInfo,
) -> bool {
    match info {
        Some(i) => r.uri@ == uri && r == (TrackInfo { uri: r.uri, ..i }),
        None => is_uri_info(r, uri, tags),
    }
}

impl TrackInfo {
    /// A library track as a queue shows it.
    pub fn from_track(t: &Track) -> (r: TrackInfo)
        ensures
            r == info_of(*t),
    {
        TrackInfo {
            uri: t.uri.clone(),
            path: Some(t.path.clone()),
            title: t.title.clone(),
            artist: copy_opt(&t.artist),
            album: copy_opt(&t.album),
            album_artist: copy_opt(&t.album_artist),
            album_id: Some(t.album_id.clone()),
            duration_ms: t.duration_ms,
            cover: Some(t.path.clone()),
            track_no: t.track,
            year: t.year,
            genre: copy_opt(&t.genre),
            sample_rate: t.sample_rate,
            bits: t.bits,
            codec: copy_opt(&t.codec),
            rg_track_gain: t.rg_track_gain,
            rg_track_peak: t.rg_track_peak,
            rg_album_gain: t.rg_album_gain,
            rg_album_peak: t.rg_album_peak,
            mb_album_id: copy_opt(&t.mb_album_id),
            live: false,
        }
    }

    /// Minimal info for a bare URI (MPRIS OpenUri, UPnP without DIDL). `tags`
    /// are those of the file, where the URI is that of a file.
    pub fn from_uri(uri: &str, tags: TagInfo) -> (r: TrackInfo)
        ensures
            is_uri_info(r, uri@, tags),
    {
        if let Some(path) = uri_to_path(uri) {
            let mut r = TrackInfo::default();
            r.uri = copy_str(uri);
            r.path = Some(path.clone());
            r.cover = Some(path);
            assert(r.title@ == Seq::<char>::empty());
            if let Some(t) = tags.title {
                r.title = t;
            }
            r.artist = tags.artist;
            r.album = tags.album;
            r.album_artist = tags.album_artist;
            r.duration_ms = tags.duration_ms;
            r.track_no = tags.track;
            r.year = tags.year;
            r.sample_rate = tags.sample_rate;
            r.bits = tags.bits;
            r.codec = tags.codec;
            return r;
        }
        let mut r = TrackInfo::default();
        r.uri = copy_str(uri);
        r.title = percent_decode(uri_name(uri).as_str());
        r
    }

    /// What is queued for a control point. `tags` are those of the file that the
    /// URI names, where the control point says nothing of the track.
    pub fn for_remote(uri: &str, info: Option<TrackInfo>, tags: TagInfo) -> (r: TrackInfo)
        ensures
            is_remote_info(r, uri@, info, tags),
    {
        match info {
            Some(i) => {
                let mut r = i;
                r.uri = copy_str(uri);
                r
            },
            None => TrackInfo::from_uri(uri, tags),
        }
    }
}

#[derive(Debug)]
pub struct QueueItem {
    /// Stable identity within the session (URIs may repeat in a queue).
    pub id: u64,
    pub info: TrackInfo,
}

impl Clone for QueueItem {
    fn clone(&self) -> (r: QueueItem)
        ensures
            r == *self,
    {
        QueueItem { id: self.id, info: self.info.clone() }
    }
}

#[derive(Debug, Clone, Copy, PartialEq, Eq, Structural)]
pub enum Repeat {
    Off,
    All,
    One,
}

impl Repeat {
    /// The mode that comes next.
    pub open spec fn following(self) -> Repeat {
        match self {
            Repeat::Off => Repeat::All,
            Repeat::All => Repeat::One,
            Repeat::One => Repeat::Off,
        }
    }

    pub fn cycle(self) -> (r: Repeat)
        ensures
            r == self.following(),
    {
        match self {
            Repeat::Off => Repeat::All,
            Repeat::All => Repeat::One,
            Repeat::One => Repeat::Off,
        }
    }
}

/// Three presses of the repeat button lead back to where it was, and no two
/// modes are skipped.
pub proof fn repeat_cycles(r: Repeat)
    ensures
        r.following().following().following() == r,
        r.following() != r,
        r.following().following() != r,
{
}

#[derive(Debug, Clone, Copy, PartialEq, Eq, Structural)]
pub enum Origin {
    /// Queue owned by us (local library playback).
    Local,
    /// Driven by a remote UPnP control point.
    Remote,
}

/// Where the current queue came from (UI "playing from", ReplayGain auto).
#[derive(Debug)]
pub enum PlayContext {
    Nowhere,
    Album(String),
    Artist(String),
    Playlist(i64),
    Radio,
    Mix,
}

impl Clone for PlayContext {
    fn clone(&self) -> (r: PlayContext)
        ensures
            r == *self,
    {
        match self {
            PlayContext::Nowhere => PlayContext::Nowhere,
            PlayContext::Album(s) => PlayContext::Album(s.clone()),
            PlayContext::Artist(s) => PlayContext::Artist(s.clone()),
            PlayContext::Playlist(n) => PlayContext::Playlist(*n),
            PlayContext::Radio => PlayContext::Radio,
            PlayContext::Mix => PlayContext::Mix,
        }
    }
}

#[derive(Debug, Clone, Copy, PartialEq, Eq, Structural)]
pub enum EnqueueAt {
    Next,
    End,
}

#[derive(Debug, Clone)]
pub enum CtlEvent {
    TrackChanged,
    StatusChanged(TransportStatus),
    QueueChanged,
    VolumeChanged,
    Seeked(u64),
    /// A play was long enough to count (history, scrobblers).
    Played(TrackInfo),
    StreamTitle(String),
    Error(String),
}

/// What an operation asks to be done, in order.
#[derive(Debug)]
pub enum CtlEffect {
    Publish(CtlEvent),
    /// Play this now.
    Load { uri: String, opts: TrackOpts },
    /// Play this after the current track.
    EnqueueNext { uri: String, opts: TrackOpts },
    /// Play nothing after the current track.
    ClearNext,
    Pause,
    Resume,
    Stop,
    Seek { ms: u64 },
    SetVolume { percent: u32 },
    SetMute { muted: bool },
    /// Preamp in dB (`f32` bits).
    SetGain { db: u32 },
    /// Record a play of the file at `path`.
    RecordPlay { path: String },
    /// Start an engine on the device, in place of the one there is.
    Respawn { device: String },
}

#[derive(Debug, Clone)]
pub struct CtlState {
    pub status: TransportStatus,
    pub queue: Vec<QueueItem>,
    pub current: Option<usize>,
    pub shuffle: bool,
    pub repeat: Repeat,
    pub origin: Origin,
    pub context: PlayContext,
    pub pos_ms: u64,
    pub dur_ms: u64,
    pub chain: ChainInfo,
    pub volume: u32,
    pub muted: bool,
    pub stream_title: Option<String>,
    /// Bumped on every queue mutation.
    pub queue_rev: u64,
}

impl CtlState {
    pub fn current_item(&self) -> (r: Option<&QueueItem>)
        ensures
            match self.current {
                Some(i) => if i < self.queue@.len() {
                    r matches Some(q) && *q == self.queue@[i as int]
                } else {
                    r is None
                },
                None => r is None,
            },
    {
        match self.current {
            Some(i) => if i < self.queue.len() {
                Some(&self.queue[i])
            } else {
                None
            },
            None => None,
        }
    }

    pub fn track(&self) -> (r: Option<TrackInfo>)
        ensures
            r == (match self.current {
                Some(i) => if i < self.queue@.len() {
                    Some(self.queue@[i as int].info)
                } else {
                    None
                },
                None => None,
            }),
    {
        match self.current_item() {
            Some(q) => Some(q.info.clone()),
            None => None,
        }
    }

    pub fn current_uri(&self) -> (r: Option<String>)
        ensures
            r == (match self.current {
                Some(i) => if i < self.queue@.len() {
                    Some(self.queue@[i as int].info.uri)
                } else {
                    None
                },
                None => None,
            }),
    {
        match self.current_item() {
            Some(q) => Some(q.info.uri.clone()),
            None => None,
        }
    }

    pub fn has_next(&self) -> (r: bool)
        ensures
            r == (match self.current {
                Some(i) => i + 1 < self.queue@.len() || (self.repeat == Repeat::All
                    && self.queue@.len() > 0),
                None => self.queue@.len() > 0,
            }),
    {
        match self.current {
            Some(i) => (self.queue.len() > 0 && i < self.queue.len() - 1) || (self.repeat
                == Repeat::All && self.queue.len() > 0),
            None => self.queue.len() > 0,
        }
    }

    pub fn has_prev(&self) -> (r: bool)
        ensures
            r == ((self.current matches Some(i) && i > 0) || self.repeat == Repeat::All),
    {
        (match self.current {
            Some(i) => i > 0,
            None => false,
        }) || self.repeat == Repeat::All
    }
}

/// Engine-side bookkeeping.
#[derive(Debug)]
pub struct Pending {
    /// Item handed to the engine as gapless successor.
    pub armed: Option<(u64, String)>,
    /// Item we asked the engine to load (for auto-skip on failure).
    pub loading: Option<u64>,
    /// Seek to apply once the given item starts (session restore).
    pub seek_on_start: Option<(u64, u64)>,
    pub failures: u32,
    pub replaygain: ReplayGain,
}

/// The controller.
#[derive(Debug)]
pub struct Controller {
    pub state: CtlState,
    pub pending: Pending,
    pub device_name: String,
    /// The id of the next item that is queued.
    pub next_id: u64,
    /// Restored session waiting for the first "play".
    pub resume_at: Option<u64>,
    /// Preamp in dB (`f32` bits).
    pub rg_preamp: u32,
}

/// The contents of a `Controller`.
pub struct CtlView {
    pub status: TransportStatus,
    pub queue: Seq<QueueItem>,
    pub current: Option<usize>,
    pub shuffle: bool,
    pub repeat: Repeat,
    pub origin: Origin,
    pub context: PlayContext,
    pub pos_ms: u64,
    pub dur_ms: u64,
    pub chain: ChainView,
    pub volume: u32,
    pub muted: bool,
    pub stream_title: Option<String>,
    pub queue_rev: u64,
    pub armed: Option<(u64, Seq<char>)>,
    pub loading: Option<u64>,
    pub seek_on_start: Option<(u64, u64)>,
    pub failures: u32,
    pub replaygain: ReplayGain,
    pub device_name: Seq<char>,
    pub next_id: u64,
    pub resume_at: Option<u64>,
    pub rg_preamp: u32,
}

pub open spec fn armed_view(a: Option<(u64, String)>) -> Option<(u64, Seq<char>)> {
    match a {
        Some(a) => Some((a.0, a.1@)),
        None => None,
    }
}

impl View for Controller {
    type V = CtlView;

    open spec fn view(&self) -> CtlView {
        CtlView {
            status: self.state.status,
            queue: self.state.queue@,
            current: self.state.current,
            shuffle: self.state.shuffle,
            repeat: self.state.repeat,
            origin: self.state.origin,
            context: self.state.context,
            pos_ms: self.state.pos_ms,
            dur_ms: self.state.dur_ms,
            chain: self.state.chain@,
            volume: self.state.volume,
            muted: self.state.muted,
            stream_title: self.state.stream_title,
            queue_rev: self.state.queue_rev,
            armed: armed_view(self.pending.armed),
            loading: self.pending.loading,
            seek_on_start: self.pending.seek_on_start,
            failures: self.pending.failures,
            replaygain: self.pending.replaygain,
            device_name: self.device_name@,
            next_id: self.next_id,
            resume_at: self.resume_at,
            rg_preamp: self.rg_preamp,
        }
    }
}

/// Whether no two items share an id.
#[verifier::opaque]
pub open spec fn ids_differ(q: Seq<QueueItem>) -> bool {
    forall|i: int, j: int|
        0 <= i < j < q.len() ==> (#[trigger] q[i]).id != (#[trigger] q[j]).id
}

/// Whether all ids are below a bound.
#[verifier::opaque]
pub open spec fn ids_below(q: Seq<QueueItem>, n: int) -> bool {
    forall|i: int| 0 <= i < q.len() ==> (#[trigger] q[i]).id < n
}

/// Whether the current position is in the queue, and every item has an id of
/// its own that was given out before.
pub open spec fn ctl_wf(v: CtlView) -> bool {
    &&& v.current matches Some(i) ==> i < v.queue.len()
    &&& ids_differ(v.queue)
    &&& ids_below(v.queue, v.next_id as int)
}

} // verus!
