//! Which lyrics are shown.

use vstd::prelude::*;

use crate::controller::state::TrackInfo;
use crate::online::error::OnlineError;
use crate::online::lyrics::{
    in_time_order, line_at, line_views, lrc_lines, parse_lrc, LineView, LyricLine, Lyrics,
    LyricsSource,
};
use crate::text::{
    chars_of, copy_opt, cut, cut_once, lines, lines_of, string_of, text_opt, trim, trim_of,
};

verus! {

/// Lines are shown this long before they are due.
pub const LEAD_MS: u64 = 250;

// ---------------------------------------------------------------------------
// What is asked for
// ---------------------------------------------------------------------------

/// What lyrics are looked up by.
#[derive(Debug)]
pub struct LyricQuery {
    pub artist: Option<String>,
    pub title: String,
    pub album: Option<String>,
    /// Seconds.
    pub duration: Option<u32>,
}

/// What lyrics are looked up by. Of a live stream that is the song that plays,
/// by the usual convention "Artist - Title"; there is no album then.
pub fn lyric_query(info: &TrackInfo, song: Option<&str>) -> (q: LyricQuery)
    ensures
        match song {
            Some(s) => {
                &&& q.album is None
                &&& match cut_once(s@, " - "@) {
                    Some((a, b)) => text_opt(q.artist) == Some(trim(a)) && q.title@ == trim(b),
                    None => q.artist is None && q.title@ == s@,
                }
            },
            None => {
                &&& text_opt(q.album) == text_opt(info.album)
                &&& text_opt(q.artist) == text_opt(info.artist)
                &&& q.title@ == info.title@
            },
        },
        q.duration == (if info.duration_ms > 0 {
            Some(((info.duration_ms / 1000) % 0x1_0000_0000) as u32)
        } else {
            None
        }),
{
    let duration: Option<u32> = if info.duration_ms > 0 {
        Some(((info.duration_ms / 1000) % 0x1_0000_0000) as u32)
    } else {
        None
    };
    match song {
        Some(s) => {
            let c = chars_of(s);
            let (artist, title) = match cut(&c, " - ") {
                Some((a, b)) => (Some(string_of(trim_of(a))), string_of(trim_of(b))),
                None => (None, string_of(&c)),
            };
            LyricQuery { artist, title, album: None, duration }
        },
        None => LyricQuery {
            artist: copy_opt(&info.artist),
            title: info.title.clone(),
            album: copy_opt(&info.album),
            duration,
        },
    }
}

// ---------------------------------------------------------------------------
// What is shown
// ---------------------------------------------------------------------------

/// Lyrics to show.
#[derive(Debug)]
pub struct Shown {
    pub lines: Vec<LyricLine>,
    pub synced: bool,
    /// Where they are from.
    pub source: &'static str,
}

/// Lines of a text without time stamps, trimmed.
pub open spec fn plain_views(text: Seq<char>) -> Seq<LineView> {
    Seq::new(
        lines(text).len(),
        |i: int| LineView { time_ms: 0, text: trim(lines(text)[i]) },
    )
}

/// Lines of a text without time stamps, trimmed.
pub fn plain_lines(text: &str) -> (out: Vec<LyricLine>)
    ensures
        line_views(out@) == plain_views(text@),
{
    let c = chars_of(text);
    let ls = lines_of(&c);
    let ghost all = lines(text@);
    let ghost want = plain_views(text@);
    let mut out: Vec<LyricLine> = Vec::new();
    assert(line_views(out@) == want.subrange(0, 0));
    for i in 0..ls.len()
        invariant
            all == lines(text@),
            want == plain_views(text@),
            ls@.len() == all.len(),
            forall|k: int| 0 <= k < ls@.len() ==> #[trigger] ls@[k]@ == all[k],
            line_views(out@) == want.subrange(0, i as int),
    {
        let ghost before = out@;
        let l = LyricLine { time_ms: 0, text: string_of(trim_of(ls[i].as_slice())) };
        let ghost x = l@;
        out.push(l);
        assert(line_views(out@) == line_views(before).push(x));
        assert(want.subrange(0, i + 1) == want.subrange(0, i as int).push(want[i as int]));
    }
    assert(want.subrange(0, want.len() as int) == want);
    out
}

/// Whether what is shown are the synced lines, or the plain ones.
pub open spec fn shows(s: Shown, views: Seq<LineView>, synced: bool, source: Seq<char>) -> bool {
    line_views(s.lines@) == views && s.synced == synced && s.source@ == source
}

/// The lyrics of a local file: with time stamps where there are some, else as
/// they are. `from_lrc`: they are from a file of their own.
pub fn local_choice(text: &str, from_lrc: bool) -> (s: Shown)
    ensures
        ({
            let source = if from_lrc {
                "Lyrics from the .lrc file"@
            } else {
                "Lyrics from the file"@
            };
            if lrc_lines(text@).len() > 0 {
                shows(s, lrc_lines(text@), true, source)
            } else {
                shows(s, plain_views(text@), false, source)
            }
        }),
        s.synced ==> in_time_order(s.lines@),
{
    let source = if from_lrc {
        "Lyrics from the .lrc file"
    } else {
        "Lyrics from the file"
    };
    let synced = parse_lrc(text);
    assert(line_views(synced@).len() == synced@.len());
    if synced.len() > 0 {
        Shown { lines: synced, synced: true, source }
    } else {
        Shown { lines: plain_lines(text), synced: false, source }
    }
}

/// Whether nothing is known locally but the service is asked: it is online, and
/// an artist is known.
pub fn asks_online(artist: &Option<String>, online: bool) -> (r: bool)
    ensures
        r == (artist is Some && online),
{
    artist.is_some() && online
}

/// What the service's answer comes to: lyrics to show, or what is said instead.
/// `answer` is missing where it was not asked.
pub fn online_choice(answer: Option<Result<Option<Lyrics>, OnlineError>>, online: bool) -> (r: (
    Option<Shown>,
    &'static str,
))
    ensures
        match answer {
            Some(Ok(Some(l))) => {
                let source = if l.source == LyricsSource::Lrclib {
                    "Lyrics from lrclib.net"@
                } else {
                    "Lyrics from the file"@
                };
                if l.instrumental {
                    r.0 is None && r.1@ == "Instrumental"@
                } else {
                    &&& r.1@ == "No lyrics for this track"@
                    &&& if l.synced matches Some(v) && v@.len() > 0 {
                        r.0 matches Some(s) && shows(
                            s,
                            line_views(l.synced->0@),
                            true,
                            source,
                        )
                    } else {
                        match l.plain {
                            Some(p) => r.0 matches Some(s) && shows(
                                s,
                                plain_views(p@),
                                false,
                                source,
                            ),
                            None => r.0 is None,
                        }
                    }
                }
            },
            Some(_) => r.0 is None && r.1@ == "No lyrics for this track"@,
            None => r.0 is None && r.1@ == (if online {
                "No lyrics for this track"@
            } else {
                "Online lyrics are turned off in Settings"@
            }),
        },
{
    let none = "No lyrics for this track";
    match answer {
        Some(Ok(Some(l))) => {
            if l.instrumental {
                return (None, "Instrumental");
            }
            let source = match l.source {
                LyricsSource::Lrclib => "Lyrics from lrclib.net",
                LyricsSource::Embedded | LyricsSource::Sidecar => "Lyrics from the file",
            };
            if let Some(v) = l.synced {
                if v.len() > 0 {
                    return (Some(Shown { lines: v, synced: true, source }), none);
                }
            }
            match l.plain {
                Some(p) => (
                    Some(Shown { lines: plain_lines(p.as_str()), synced: false, source }),
                    none,
                ),
                None => (None, none),
            }
        },
        Some(_) => (None, none),
        None => if online {
            (None, none)
        } else {
            (None, "Online lyrics are turned off in Settings")
        },
    }
}

/// The line to show at a position, where lines have time stamps.
pub fn shown_line(lines: &Vec<LyricLine>, synced: bool, pos_ms: u64) -> (r: Option<usize>)
    requires
        synced ==> in_time_order(lines@),
        pos_ms + LEAD_MS <= u64::MAX,
    ensures
        !synced ==> r is None,
        synced ==> match r {
            Some(i) => i < lines@.len() && lines@[i as int].time_ms <= pos_ms + LEAD_MS
                && forall|j: int|
                i < j < lines@.len() ==> (#[trigger] lines@[j]).time_ms > pos_ms + LEAD_MS,
            None => forall|j: int|
                0 <= j < lines@.len() ==> (#[trigger] lines@[j]).time_ms > pos_ms + LEAD_MS,
        },
{
    if synced {
        line_at(lines.as_slice(), pos_ms + LEAD_MS)
    } else {
        None
    }
}

} // verus!
