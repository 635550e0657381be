//! What is shown of the current track.

use vstd::prelude::*;

use crate::config::str_opt;
use crate::controller::state::{Origin, PlayContext, TrackInfo};
use crate::online::http::{truncate, truncated};
use crate::text::{
    chars_of, concat2, copy_str, join, join_strings, push_text, rcut, rcut_once, same_opt,
    starts_with, starts_with_chars, string_of, text_opt, texts,
};
use crate::ui::text::{t, translated};
use crate::uri::{is_on_the_web, on_the_web};

verus! {

/// The song of a live stream, if it is told.
pub open spec fn live_title(info: TrackInfo, stream_title: Option<String>) -> Option<Seq<char>> {
    if info.live {
        text_opt(stream_title)
    } else {
        None
    }
}

/// What is shown of a track.
#[derive(Debug)]
pub struct NowDisplay {
    pub title: String,
    pub artist: String,
    pub album: String,
    pub album_id: String,
    pub live: bool,
    pub origin: &'static str,
}

/// An optional text, or the empty one.
pub open spec fn or_empty(s: Option<String>) -> Seq<char> {
    match s {
        Some(t) => t@,
        None => ""@,
    }
}

fn text_or_empty(s: &Option<String>) -> (r: String)
    ensures
        r@ == or_empty(*s),
{
    match s {
        Some(t) => t.clone(),
        None => copy_str(""),
    }
}

/// Where a track comes from, if that is worth saying.
pub open spec fn origin_text(origin: Origin, live: bool, french: bool) -> Seq<char> {
    if live {
        translated("Internet radio"@, french)
    } else if origin == Origin::Remote {
        translated("UPnP"@, french)
    } else {
        ""@
    }
}

/// What is shown of a track. Internet radio: the song is the title, the
/// station the artist. The album can be opened only of a local file.
pub fn on_track_changed(
    info: &TrackInfo,
    origin: Origin,
    stream_title: &Option<String>,
    french: bool,
) -> (d: NowDisplay)
    ensures
        d.title@ == (match live_title(*info, *stream_title) {
            Some(song) => song,
            None => info.title@,
        }),
        d.artist@ == (match live_title(*info, *stream_title) {
            Some(_) => info.title@,
            None => match info.artist {
                Some(a) => a@,
                None => translated("Unknown artist"@, french),
            },
        }),
        d.album@ == or_empty(info.album),
        d.album_id@ == (if info.path is Some {
            or_empty(info.album_id)
        } else {
            ""@
        }),
        d.live == info.live,
        d.origin@ == origin_text(origin, info.live, french),
{
    let song: Option<String> = match stream_title {
        Some(s) => if info.live {
            Some(s.clone())
        } else {
            None
        },
        None => None,
    };
    let (title, artist) = match song {
        Some(s) => (s, info.title.clone()),
        None => (
            info.title.clone(),
            match &info.artist {
                Some(a) => a.clone(),
                None => copy_str(t("Unknown artist", french)),
            },
        ),
    };
    NowDisplay {
        title,
        artist,
        album: text_or_empty(&info.album),
        album_id: if info.path.is_some() {
            text_or_empty(&info.album_id)
        } else {
            copy_str("")
        },
        live: info.live,
        origin: if info.live {
            t("Internet radio", french)
        } else {
            match origin {
                Origin::Remote => t("UPnP", french),
                Origin::Local => "",
            }
        },
    }
}

/// Whether only the song of the stream that is shown changed: its cover stays.
pub fn same_track(
    now_path: &Option<String>,
    now_id: Option<u64>,
    info: &TrackInfo,
    stream_title: &Option<String>,
) -> (r: bool)
    ensures
        r == (text_opt(*now_path) == text_opt(info.path) && info.path is Some && now_id is Some
            && live_title(*info, *stream_title) is Some),
{
    same_opt(now_path, &info.path) && info.path.is_some() && now_id.is_some() && info.live
        && stream_title.is_some()
}

// ---------------------------------------------------------------------------
// Cover
// ---------------------------------------------------------------------------

/// Where a cover comes from.
#[derive(Debug)]
pub enum Source {
    /// A track file (embedded / folder art), keyed by album id or path.
    Track { key: String, path: String },
    /// An http(s) image (UPnP album art, radio favicon).
    Url(String),
}

/// The key of a source.
pub open spec fn source_key(s: Source) -> Seq<char> {
    match s {
        Source::Track { key, .. } => key@,
        Source::Url(u) => u@,
    }
}

impl Source {
    pub fn key(&self) -> (k: &str)
        ensures
            k@ == source_key(*self),
    {
        match self {
            Source::Track { key, .. } => key.as_str(),
            Source::Url(u) => u.as_str(),
        }
    }
}

/// When local art is missing, what to ask MusicBrainz for.
#[derive(Debug)]
pub struct Lookup {
    pub artist: String,
    pub album: String,
}

/// Where the cover of a track comes from: the web, else the file, kept by
/// album where that is known.
pub fn cover_source(info: &TrackInfo) -> (r: Option<Source>)
    ensures
        match info.cover {
            None => r is None,
            Some(hint) => r matches Some(s) && (if on_the_web(hint@) {
                s matches Source::Url(u) && u@ == hint@
            } else {
                s matches Source::Track { key, path } && path@ == hint@ && key@ == (
                match info.album_id {
                    Some(id) => id@,
                    None => "p:"@ + hint@,
                })
            }),
        },
{
    match &info.cover {
        None => None,
        Some(hint) => {
            if is_on_the_web(hint.as_str()) {
                return Some(Source::Url(hint.clone()));
            }
            let key = match &info.album_id {
                Some(id) => id.clone(),
                None => concat2("p:", hint.as_str()),
            };
            Some(Source::Track { key, path: hint.clone() })
        },
    }
}

/// What to ask for where the cover of a track is missing: its album, under the
/// album's artist.
pub fn cover_lookup(info: &TrackInfo) -> (r: Option<Lookup>)
    ensures
        match r {
            Some(l) => {
                &&& info.album matches Some(al) && l.album@ == al@
                &&& info.artist matches Some(ar) && l.artist@ == (match info.album_artist {
                    Some(aa) => aa@,
                    None => ar@,
                })
            },
            None => info.album is None || info.artist is None,
        },
{
    match (&info.album, &info.artist) {
        (Some(al), Some(ar)) => {
            let artist = match &info.album_artist {
                Some(aa) => aa.clone(),
                None => ar.clone(),
            };
            Some(Lookup { artist, album: al.clone() })
        },
        _ => None,
    }
}

// ---------------------------------------------------------------------------
// Sentences
// ---------------------------------------------------------------------------

/// What a queue is played from; `name` is that of an album or a playlist.
pub open spec fn context_text(
    ctx: PlayContext,
    name: Option<Seq<char>>,
    french: bool,
) -> Option<Seq<char>> {
    match ctx {
        PlayContext::Album(_) => name,
        PlayContext::Artist(a) => Some(a@),
        PlayContext::Playlist(_) => name,
        PlayContext::Radio => Some(translated("Internet radio"@, french)),
        PlayContext::Mix => Some(translated("Library mix"@, french)),
        PlayContext::Nowhere => None,
    }
}

/// "Playing from …"; empty where that is not known.
pub fn context_label(ctx: &PlayContext, name: Option<&str>, french: bool) -> (s: String)
    ensures
        s@ == (match context_text(*ctx, str_opt(name), french) {
            Some(w) => translated("Playing from"@, french) + " "@ + w,
            None => ""@,
        }),
{
    let what: Option<&str> = match ctx {
        PlayContext::Album(_) => name,
        PlayContext::Artist(a) => Some(a.as_str()),
        PlayContext::Playlist(_) => name,
        PlayContext::Radio => Some(t("Internet radio", french)),
        PlayContext::Mix => Some(t("Library mix", french)),
        PlayContext::Nowhere => None,
    };
    match what {
        Some(w) => {
            let mut s = copy_str(t("Playing from", french));
            s.push_str(" ");
            s.push_str(w);
            s
        },
        None => copy_str(""),
    }
}

/// The texts that are there.
pub open spec fn present(a: Option<String>, b: Option<String>) -> Seq<Seq<char>> {
    match (a, b) {
        (Some(x), Some(y)) => seq![x@, y@],
        (Some(x), None) => seq![x@],
        (None, Some(y)) => seq![y@],
        (None, None) => Seq::empty(),
    }
}

/// A notification: its summary and its body.
pub fn notification(info: &TrackInfo, stream_title: &Option<String>) -> (r: (String, String))
    ensures
        match live_title(*info, *stream_title) {
            Some(song) => r.0@ == song && r.1@ == info.title@,
            None => r.0@ == info.title@ && r.1@ == join(
                present(info.artist, info.album),
                " — "@,
            ),
        },
{
    if info.live {
        if let Some(song) = stream_title {
            return (song.clone(), info.title.clone());
        }
    }
    let mut parts: Vec<String> = Vec::new();
    assert(texts(parts@) == Seq::<Seq<char>>::empty());
    if let Some(a) = &info.artist {
        push_text(&mut parts, a.clone());
    }
    if let Some(a) = &info.album {
        push_text(&mut parts, a.clone());
    }
    assert(texts(parts@) == present(info.artist, info.album));
    (info.title.clone(), join_strings(&parts, " — "))
}

/// Whether a notification's icon is made of the track's own art.
pub fn has_local_cover(info: &TrackInfo) -> (r: bool)
    ensures
        r == (info.cover matches Some(c) && !starts_with(c@, "http"@)),
{
    match &info.cover {
        Some(c) => !starts_with_chars(&chars_of(c.as_str()), &chars_of("http")),
        None => false,
    }
}

/// The last part of an error message, cut to a length that fits.
pub fn short_error(msg: &str) -> (s: String)
    ensures
        s@ == truncated(
            match rcut_once(msg@, ": "@) {
                Some((_, last)) => last,
                None => msg@,
            },
            140,
        ),
{
    let c = chars_of(msg);
    let last = match rcut(&c, ": ") {
        Some((_, last)) => string_of(last),
        None => copy_str(msg),
    };
    truncate(last, 140)
}

} // verus!
