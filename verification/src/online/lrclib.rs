//! LRCLIB (<https://lrclib.net/docs>): free, open lyrics database, no key.

use vstd::prelude::*;

use crate::online::error::OnlineError;
use crate::online::http::{is_not_found, param, param_views, push_param, ParamView};
use crate::online::lyrics::{line_views, lrc_lines, parse_lrc, Lyrics, LyricsSource};
use crate::text::{chars_of, dec, dec_string, trim, trim_of};

verus! {

pub const API_BASE: &'static str = "https://lrclib.net/api";

/// LRCLIB's own matching tolerance for `duration`: the bits of 2.0 seconds as
/// an `f64`. The bits of floats that are not negative are ordered as the
/// floats are.
pub const DURATION_TOLERANCE_BITS: u64 = 0x4000000000000000;

/// A record of the database.
#[derive(Debug)]
pub struct Record {
    pub instrumental: bool,
    pub plain_lyrics: Option<String>,
    pub synced_lyrics: Option<String>,
}

/// Whether a text is there and not blank.
pub open spec fn present(s: Option<String>) -> bool {
    s matches Some(t) && trim(t@).len() > 0
}

fn is_present(s: &Option<String>) -> (r: bool)
    ensures
        r == present(*s),
{
    match s {
        Some(t) => trim_of(&chars_of(t.as_str())).len() > 0,
        None => false,
    }
}

/// Converts a record, or `None` if it carries neither lyrics nor the
/// instrumental flag.
pub fn to_lyrics(r: Record) -> (l: Option<Lyrics>)
    ensures
        ({
            let synced = present(r.synced_lyrics) && lrc_lines(r.synced_lyrics->0@).len() > 0;
            match l {
                None => !synced && !present(r.plain_lyrics) && !r.instrumental,
                Some(l) => {
                    &&& synced || present(r.plain_lyrics) || r.instrumental
                    &&& l.source == LyricsSource::Lrclib
                    &&& l.instrumental == r.instrumental
                    &&& l.plain == (if present(r.plain_lyrics) {
                        r.plain_lyrics
                    } else {
                        None
                    })
                    &&& synced ==> (l.synced matches Some(v) && line_views(v@) == lrc_lines(
                        r.synced_lyrics->0@,
                    ))
                    &&& !synced ==> l.synced is None
                },
            }
        }),
{
    let mut synced: Option<Vec<crate::online::lyrics::LyricLine>> = None;
    if is_present(&r.synced_lyrics) {
        if let Some(s) = &r.synced_lyrics {
            let lines = parse_lrc(s.as_str());
            assert(line_views(lines@).len() == lines@.len());
            if lines.len() > 0 {
                synced = Some(lines);
            }
        }
    }
    let plain = if is_present(&r.plain_lyrics) {
        r.plain_lyrics
    } else {
        None
    };
    if synced.is_none() && plain.is_none() && !r.instrumental {
        return None;
    }
    Some(Lyrics { synced, plain, source: LyricsSource::Lrclib, instrumental: r.instrumental })
}

/// A search result with its distance from the wanted duration: the bits of an
/// `f64` that is not negative; none where the record has no duration to
/// compare, zero where none is wanted.
#[derive(Debug)]
pub struct Candidate {
    pub record: Record,
    pub distance: Option<u64>,
}

/// Whether a candidate has something to offer and is close enough.
pub open spec fn acceptable(c: Candidate) -> bool {
    (present(c.record.synced_lyrics) || present(c.record.plain_lyrics) || c.record.instrumental)
        && (c.distance matches Some(d) && d <= DURATION_TOLERANCE_BITS)
}

/// Whether `a` is a better match than `b`: synced lyrics first, then the
/// closest duration, then plain lyrics.
pub open spec fn better(a: Candidate, b: Candidate) -> bool {
    let sa = present(a.record.synced_lyrics);
    let sb = present(b.record.synced_lyrics);
    let da = a.distance->0;
    let db = b.distance->0;
    if sa != sb {
        sa
    } else if da != db {
        da < db
    } else {
        present(a.record.plain_lyrics) && !present(b.record.plain_lyrics)
    }
}

/// Whether `i` is the best acceptable candidate, and the first of the best.
pub open spec fn best(cs: Seq<Candidate>, i: int) -> bool {
    &&& 0 <= i < cs.len()
    &&& acceptable(cs[i])
    &&& forall|j: int| 0 <= j < cs.len() && acceptable(#[trigger] cs[j]) ==> !better(cs[j], cs[i])
    &&& forall|j: int| 0 <= j < i && acceptable(#[trigger] cs[j]) ==> better(cs[i], cs[j])
}

fn is_acceptable(c: &Candidate) -> (r: bool)
    ensures
        r == acceptable(*c),
{
    (is_present(&c.record.synced_lyrics) || is_present(&c.record.plain_lyrics) || c.record.instrumental) && (
    match c.distance {
        Some(d) => d <= DURATION_TOLERANCE_BITS,
        None => false,
    })
}

fn is_better(a: &Candidate, b: &Candidate) -> (r: bool)
    requires
        a.distance is Some,
        b.distance is Some,
    ensures
        r == better(*a, *b),
{
    let sa = is_present(&a.record.synced_lyrics);
    let sb = is_present(&b.record.synced_lyrics);
    if sa != sb {
        return sa;
    }
    if let (Some(da), Some(db)) = (a.distance, b.distance) {
        if da != db {
            return da < db;
        }
    }
    is_present(&a.record.plain_lyrics) && !is_present(&b.record.plain_lyrics)
}

/// Best search candidate: within the duration tolerance (when known),
/// preferring synced lyrics, then the closest duration, then plain lyrics.
pub fn best_match(candidates: &Vec<Candidate>) -> (r: Option<usize>)
    ensures
        match r {
            Some(i) => best(candidates@, i as int),
            None => forall|j: int|
                0 <= j < candidates@.len() ==> !acceptable(#[trigger] candidates@[j]),
        },
        r matches Some(i) ==> forall|j: int|
            0 <= j < candidates@.len() && acceptable(#[trigger] candidates@[j]) && present(
                candidates@[j].record.synced_lyrics,
            ) == present(candidates@[i as int].record.synced_lyrics)
                ==> candidates@[i as int].distance->0 <= candidates@[j].distance->0,
{
    let mut found: Option<usize> = None;
    for i in 0..candidates.len()
        invariant
            match found {
                Some(b) => {
                    &&& b < i
                    &&& acceptable(candidates@[b as int])
                    &&& forall|j: int|
                        0 <= j < i && acceptable(#[trigger] candidates@[j]) ==> !better(
                            candidates@[j],
                            candidates@[b as int],
                        )
                    &&& forall|j: int|
                        0 <= j < b && acceptable(#[trigger] candidates@[j]) ==> better(
                            candidates@[b as int],
                            candidates@[j],
                        )
                },
                None => forall|j: int|
                    0 <= j < i ==> !acceptable(#[trigger] candidates@[j]),
            },
    {
        if is_acceptable(&candidates[i]) {
            match found {
                Some(b) => {
                    if is_better(&candidates[i], &candidates[b]) {
                        found = Some(i);
                    }
                },
                None => {
                    found = Some(i);
                },
            }
        }
    }
    found
}

/// The best match offers something and is at most two seconds off. Among the
/// candidates of which that holds, none has synced lyrics where it has none; of
/// those that agree with it on synced lyrics none is closer; and of those that
/// are as close none has plain lyrics where it has none.
pub proof fn the_closest_match_is_chosen(cs: Seq<Candidate>, i: int, j: int)
    requires
        best(cs, i),
        0 <= j < cs.len(),
        present(cs[j].record.synced_lyrics) || present(cs[j].record.plain_lyrics)
            || cs[j].record.instrumental,
        cs[j].distance matches Some(d) && d <= 0x4000000000000000,
    ensures
        0 <= i < cs.len(),
        present(cs[i].record.synced_lyrics) || present(cs[i].record.plain_lyrics)
            || cs[i].record.instrumental,
        cs[i].distance matches Some(d) && d <= 0x4000000000000000,
        present(cs[j].record.synced_lyrics) ==> present(cs[i].record.synced_lyrics),
        present(cs[j].record.synced_lyrics) == present(cs[i].record.synced_lyrics)
            ==> cs[i].distance->0 <= cs[j].distance->0,
        present(cs[j].record.synced_lyrics) == present(cs[i].record.synced_lyrics)
            && cs[i].distance == cs[j].distance && present(cs[j].record.plain_lyrics) ==> present(
            cs[i].record.plain_lyrics,
        ),
        present(cs[j].record.synced_lyrics) == present(cs[i].record.synced_lyrics)
            && cs[i].distance == cs[j].distance && present(cs[j].record.plain_lyrics) == present(
            cs[i].record.plain_lyrics,
        ) ==> i <= j,
{
}

/// A candidate that is more than two seconds off, has no duration to compare or
/// offers nothing is never chosen.
pub proof fn a_far_match_is_not_chosen(cs: Seq<Candidate>, i: int)
    requires
        0 <= i < cs.len(),
        cs[i].distance is None || cs[i].distance->0 > 0x4000000000000000 || !(present(
            cs[i].record.synced_lyrics,
        ) || present(cs[i].record.plain_lyrics) || cs[i].record.instrumental),
    ensures
        !best(cs, i),
{
}

/// A lookup names the artist and the title first, then the album, where there is
/// one that is not blank, then the duration where it is known.
pub proof fn a_lookup_names_the_track(
    artist: Seq<char>,
    title: Seq<char>,
    album: Seq<char>,
    duration_s: u32,
)
    requires
        trim(album).len() > 0,
    ensures
        search_params(artist, title) == seq![
            ParamView { name: "artist_name"@, value: artist },
            ParamView { name: "track_name"@, value: title },
        ],
        get_params(artist, title, Some(album), Some(duration_s)) == seq![
            ParamView { name: "artist_name"@, value: artist },
            ParamView { name: "track_name"@, value: title },
            ParamView { name: "album_name"@, value: album },
            ParamView { name: "duration"@, value: dec(duration_s as nat) },
        ],
        get_params(artist, title, None, None) == seq![
            ParamView { name: "artist_name"@, value: artist },
            ParamView { name: "track_name"@, value: title },
        ],
{
}

/// The parameters of a search for a track.
pub open spec fn search_params(artist: Seq<char>, title: Seq<char>) -> Seq<ParamView> {
    seq![param("artist_name"@, artist), param("track_name"@, title)]
}

/// The parameters of an exact lookup: a blank album is left out.
pub open spec fn get_params(
    artist: Seq<char>,
    title: Seq<char>,
    album: Option<Seq<char>>,
    duration_s: Option<u32>,
) -> Seq<ParamView> {
    search_params(artist, title) + (match album {
        Some(a) => if trim(a).len() > 0 {
            seq![param("album_name"@, a)]
        } else {
            Seq::empty()
        },
        None => Seq::empty(),
    }) + (match duration_s {
        Some(d) => seq![param("duration"@, dec(d as nat))],
        None => Seq::empty(),
    })
}

/// The parameters of `/api/search`.
pub fn search_query(artist: &str, title: &str) -> (q: Vec<(String, String)>)
    ensures
        param_views(q@) == search_params(artist@, title@),
{
    let mut q: Vec<(String, String)> = Vec::new();
    assert(param_views(q@) == Seq::<ParamView>::empty());
    push_param(&mut q, "artist_name", artist);
    push_param(&mut q, "track_name", title);
    assert(param_views(q@) == search_params(artist@, title@));
    q
}

/// The parameters of `/api/get`.
pub fn get_query(artist: &str, title: &str, album: Option<&str>, duration_s: Option<u32>) -> (q:
    Vec<(String, String)>)
    ensures
        param_views(q@) == get_params(
            artist@,
            title@,
            match album {
                Some(a) => Some(a@),
                None => None,
            },
            duration_s,
        ),
{
    let mut q = search_query(artist, title);
    let ghost first = param_views(q@);
    assert(first + Seq::<ParamView>::empty() == first);
    if let Some(a) = album {
        if trim_of(&chars_of(a)).len() > 0 {
            push_param(&mut q, "album_name", a);
        }
    }
    let ghost second = param_views(q@);
    assert(second + Seq::<ParamView>::empty() == second);
    if let Some(d) = duration_s {
        push_param(&mut q, "duration", dec_string(d as u64).as_str());
    }
    assert(param_views(q@) == get_params(
        artist@,
        title@,
        match album {
            Some(a) => Some(a@),
            None => None,
        },
        duration_s,
    ));
    q
}

/// What comes after the exact lookup.
#[derive(Debug)]
pub enum GetStep {
    Found(Lyrics),
    /// Nothing usable: search.
    Search,
    Failed(OnlineError),
}

/// Fetches lyrics for a track: exact `/api/get` first. Nothing found, or a
/// record without lyrics, leads to a search; other failures are returned.
pub fn get(reply: Result<Record, OnlineError>) -> (step: GetStep)
    ensures
        match reply {
            Ok(r) => {
                let some = (present(r.synced_lyrics) && lrc_lines(r.synced_lyrics->0@).len() > 0)
                    || present(r.plain_lyrics) || r.instrumental;
                match step {
                    GetStep::Found(l) => some && l.source == LyricsSource::Lrclib && l.instrumental
                        == r.instrumental && l.plain == (if present(r.plain_lyrics) {
                        r.plain_lyrics
                    } else {
                        None
                    }) && (l.synced matches Some(v) ==> present(r.synced_lyrics) && line_views(v@)
                        == lrc_lines(r.synced_lyrics->0@)) && (l.synced is None ==> !(present(
                        r.synced_lyrics,
                    ) && lrc_lines(r.synced_lyrics->0@).len() > 0)),
                    GetStep::Search => !some,
                    GetStep::Failed(_) => false,
                }
            },
            Err(e) => if e matches OnlineError::Http { status, .. } && status == 404 {
                step is Search
            } else {
                step == GetStep::Failed(e)
            },
        },
{
    match reply {
        Ok(r) => match to_lyrics(r) {
            Some(l) => GetStep::Found(l),
            None => GetStep::Search,
        },
        Err(e) => if is_not_found(&e) {
            GetStep::Search
        } else {
            GetStep::Failed(e)
        },
    }
}

} // verus!
