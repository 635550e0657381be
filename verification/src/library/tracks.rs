//! What the library knows of tracks, albums and artists.

use vstd::prelude::*;
use vstd::utf8::encode_utf8;

use crate::library::meta::TagInfo;
use crate::text::{bytes_of, concat3, copy_str, lowercase, text_opt, to_lowercase, trim, trimmed};

verus! {

/// A track of the library. Gains and peaks are the bits of `f32` values.
#[derive(Debug, Clone)]
pub struct Track {
    pub path: String,
    pub uri: String,
    pub title: String,
    pub artist: Option<String>,
    pub album_artist: Option<String>,
    pub album: Option<String>,
    pub album_id: String,
    pub track: Option<u32>,
    pub disc: Option<u32>,
    pub year: Option<i32>,
    pub genre: Option<String>,
    pub composer: Option<String>,
    pub duration_ms: u64,
    pub sample_rate: Option<u32>,
    pub bits: Option<u8>,
    pub channels: Option<u8>,
    pub bitrate: Option<u32>,
    pub codec: Option<String>,
    pub rg_track_gain: Option<u32>,
    pub rg_track_peak: Option<u32>,
    pub rg_album_gain: Option<u32>,
    pub rg_album_peak: Option<u32>,
    pub mb_album_id: Option<String>,
    pub favorite: bool,
    pub play_count: u32,
}

impl Track {
    pub fn is_hires(&self) -> (r: bool)
        ensures
            r == hires(self.sample_rate, self.bits),
    {
        is_hires(self.sample_rate, self.bits)
    }
}

/// More than CD and DAT quality.
pub open spec fn hires(rate: Option<u32>, bits: Option<u8>) -> bool {
    (rate matches Some(r) && r > 48_000) || (bits matches Some(b) && b > 16)
}

pub fn is_hires(rate: Option<u32>, bits: Option<u8>) -> (r: bool)
    ensures
        r == hires(rate, bits),
{
    (match rate {
        Some(r) => r > 48_000,
        None => false,
    }) || (match bits {
        Some(b) => b > 16,
        None => false,
    })
}

#[derive(Debug, Clone)]
pub struct Album {
    pub id: String,
    pub title: String,
    /// Album artist, else the sole track artist, else "Various Artists".
    pub artist: String,
    pub year: Option<i32>,
    pub genre: Option<String>,
    pub track_count: u32,
    pub disc_count: u32,
    pub duration_ms: u64,
    pub added_at: i64,
    pub max_rate: Option<u32>,
    pub max_bits: Option<u8>,
    pub codec: Option<String>,
    /// A track of the album, to resolve the cover from.
    pub cover_path: String,
    pub dir: String,
    pub favorite: bool,
}

impl Album {
    pub fn is_hires(&self) -> (r: bool)
        ensures
            r == hires(self.max_rate, self.max_bits),
    {
        is_hires(self.max_rate, self.max_bits)
    }
}

/// The title to show for an album: its tag, else the name of its directory.
pub fn album_title(album: Option<String>, dir_name: Option<String>) -> (r: String)
    ensures
        r@ == (match (text_opt(album), text_opt(dir_name)) {
            (Some(a), d) => if a.len() > 0 {
                a
            } else {
                match d {
                    Some(d) => d,
                    None => "Unknown album"@,
                }
            },
            (None, Some(d)) => d,
            (None, None) => "Unknown album"@,
        }),
{
    if let Some(a) = album {
        if !a.as_str().is_empty() {
            return a;
        }
    }
    match dir_name {
        Some(d) => d,
        None => copy_str("Unknown album"),
    }
}

/// The artist to show for an album: album artist, else the sole track artist,
/// else "Various Artists".
pub fn album_artist_name(
    album_artist: Option<String>,
    artist: Option<String>,
    distinct_artists: u32,
) -> (r: String)
    ensures
        r@ == (match (text_opt(album_artist), text_opt(artist)) {
            (Some(a), _) => a,
            (None, a) => if distinct_artists > 1 {
                "Various Artists"@
            } else {
                match a {
                    Some(a) => a,
                    None => "Unknown artist"@,
                }
            },
        }),
{
    match album_artist {
        Some(a) => a,
        None => if distinct_artists > 1 {
            copy_str("Various Artists")
        } else {
            match artist {
                Some(a) => a,
                None => copy_str("Unknown artist"),
            }
        },
    }
}

#[derive(Debug, Clone)]
pub struct Artist {
    pub name: String,
    pub album_count: u32,
    pub track_count: u32,
    pub cover_path: String,
}

#[derive(Debug, Clone)]
pub struct Genre {
    pub name: String,
    pub album_count: u32,
    pub track_count: u32,
}

#[derive(Debug, Clone)]
pub struct Playlist {
    pub id: i64,
    pub name: String,
    pub track_count: u32,
    pub duration_ms: u64,
    pub updated_at: i64,
    pub cover_path: Option<String>,
}

#[derive(Debug, Clone)]
pub struct SearchResults {
    pub artists: Vec<Artist>,
    pub albums: Vec<Album>,
    pub tracks: Vec<Track>,
}

impl SearchResults {
    pub fn is_empty(&self) -> (r: bool)
        ensures
            r == (self.artists@.len() == 0 && self.albums@.len() == 0 && self.tracks@.len() == 0),
    {
        self.artists.len() == 0 && self.albums.len() == 0 && self.tracks.len() == 0
    }
}

#[derive(Debug, Clone, Copy, PartialEq, Eq, Structural)]
pub enum AlbumSort {
    Title,
    Artist,
    YearDesc,
    RecentlyAdded,
}

#[derive(Debug, Clone, Copy, PartialEq, Eq, Structural)]
pub enum TrackSort {
    Artist,
    Title,
    Album,
    Duration,
    RecentlyAdded,
    MostPlayed,
}

impl AlbumSort {
    /// The text of `order`.
    pub open spec fn clause(self) -> Seq<char> {
        match self {
            AlbumSort::Title => "MAX(t.album) COLLATE NOCASE"@,
            AlbumSort::Artist => "COALESCE(MAX(t.album_artist), MAX(t.artist)) COLLATE NOCASE, MIN(t.year), MAX(t.album) COLLATE NOCASE"@,
            AlbumSort::YearDesc => "MIN(t.year) DESC, MAX(t.album) COLLATE NOCASE"@,
            AlbumSort::RecentlyAdded => "MIN(t.added_at) DESC, MAX(t.album) COLLATE NOCASE"@,
        }
    }

    /// The `ORDER BY` clause for albums grouped by their id.
    pub fn order(self) -> (s: &'static str)
        ensures
            s@ == self.clause(),
    {
        match self {
            AlbumSort::Title => "MAX(t.album) COLLATE NOCASE",
            AlbumSort::Artist => "COALESCE(MAX(t.album_artist), MAX(t.artist)) COLLATE NOCASE, MIN(t.year), MAX(t.album) COLLATE NOCASE",
            AlbumSort::YearDesc => "MIN(t.year) DESC, MAX(t.album) COLLATE NOCASE",
            AlbumSort::RecentlyAdded => "MIN(t.added_at) DESC, MAX(t.album) COLLATE NOCASE",
        }
    }
}

impl TrackSort {
    /// The text of `order`.
    pub open spec fn clause(self) -> Seq<char> {
        match self {
            TrackSort::Artist => "COALESCE(t.album_artist, t.artist) COLLATE NOCASE, t.year, t.album_id, COALESCE(t.disc,1), COALESCE(t.track,0)"@,
            TrackSort::Title => "t.title COLLATE NOCASE"@,
            TrackSort::Album => "t.album COLLATE NOCASE, COALESCE(t.disc,1), COALESCE(t.track,0)"@,
            TrackSort::Duration => "t.duration_ms DESC"@,
            TrackSort::RecentlyAdded => "t.added_at DESC, t.path"@,
            TrackSort::MostPlayed => "COALESCE(s.play_count,0) DESC, t.title COLLATE NOCASE"@,
        }
    }

    /// The `ORDER BY` clause for tracks joined with their statistics.
    pub fn order(self) -> (s: &'static str)
        ensures
            s@ == self.clause(),
    {
        match self {
            TrackSort::Artist => "COALESCE(t.album_artist, t.artist) COLLATE NOCASE, t.year, t.album_id, COALESCE(t.disc,1), COALESCE(t.track,0)",
            TrackSort::Title => "t.title COLLATE NOCASE",
            TrackSort::Album => "t.album COLLATE NOCASE, COALESCE(t.disc,1), COALESCE(t.track,0)",
            TrackSort::Duration => "t.duration_ms DESC",
            TrackSort::RecentlyAdded => "t.added_at DESC, t.path",
            TrackSort::MostPlayed => "COALESCE(s.play_count,0) DESC, t.title COLLATE NOCASE",
        }
    }
}

#[derive(Debug, Clone, Copy, PartialEq, Eq, Structural)]
pub struct LibraryStats {
    pub tracks: u32,
    pub albums: u32,
    pub artists: u32,
    pub duration_ms: u64,
    pub size_bytes: u64,
    pub hires_tracks: u32,
}

// ---------------------------------------------------------------------------
// Album identity
// ---------------------------------------------------------------------------

/// The FNV-1a hash of some bytes.
pub open spec fn fnv_bytes(b: Seq<u8>) -> u64
    decreases b.len(),
{
    if b.len() == 0 {
        0xcbf29ce484222325
    } else {
        (fnv_bytes(b.drop_last()) ^ (b.last() as u64)).wrapping_mul(0x100000001b3)
    }
}

pub fn fnv(s: &str) -> (h: u64)
    ensures
        h == fnv_bytes(encode_utf8(s@)),
{
    let b = bytes_of(s);
    let mut h: u64 = 0xcbf29ce484222325;
    assert(b@.subrange(0, 0) == Seq::<u8>::empty());
    for i in 0..b.len()
        invariant
            h == fnv_bytes(b@.subrange(0, i as int)),
    {
        assert(b@.subrange(0, i + 1).drop_last() == b@.subrange(0, i as int));
        h = (h ^ (b[i] as u64)).wrapping_mul(0x100000001b3);
    }
    assert(b@.subrange(0, b@.len() as int) == b@);
    h
}

/// The lower-case hexadecimal digit for `d`.
pub open spec fn hex_digit(d: nat) -> char {
    if d < 10 {
        (48 + d) as char
    } else {
        (87 + d) as char
    }
}

/// The last `n` hexadecimal digits of `h`.
pub open spec fn hex_digits(h: nat, n: nat) -> Seq<char>
    decreases n,
{
    if n == 0 {
        Seq::empty()
    } else {
        hex_digits(h / 16, (n - 1) as nat).push(hex_digit(h % 16))
    }
}

fn push_hex_digits(s: &mut String, h: u64, n: u32)
    ensures
        final(s)@ == old(s)@ + hex_digits(h as nat, n as nat),
    decreases n,
{
    if n > 0 {
        let ghost before = s@;
        push_hex_digits(s, h / 16, n - 1);
        let d: u8 = (h % 16) as u8;
        let c: u8 = if d < 10 {
            48 + d
        } else {
            87 + d
        };
        s.push(c as char);
        assert(before + hex_digits(h as nat, n as nat) == (before + hex_digits(
            (h / 16) as nat,
            (n - 1) as nat,
        )).push(hex_digit((h % 16) as nat)));
    }
}

/// A hash as sixteen hexadecimal digits.
pub fn hex16(h: u64) -> (s: String)
    ensures
        s@ == hex_digits(h as nat, 16),
{
    let mut s = String::new();
    push_hex_digits(&mut s, h, 16);
    s
}

/// What identifies an album: (album, album artist) when an album artist is
/// tagged, else (album, directory) so untagged compilations stay together.
pub open spec fn identity(
    album: Seq<char>,
    album_artist: Option<Seq<char>>,
    dir: Seq<char>,
) -> Seq<char> {
    match album_artist {
        Some(aa) => if album.len() > 0 {
            album + "\u{1f}"@ + aa
        } else {
            album + "\u{1f}dir:"@ + dir
        },
        None => album + "\u{1f}dir:"@ + dir,
    }
}

/// The identity of an album, from its normalized names.
pub fn album_key(album: &str, album_artist: Option<&str>, dir: &str) -> (r: String)
    ensures
        r@ == identity(
            album@,
            match album_artist {
                Some(a) => Some(a@),
                None => None,
            },
            dir@,
        ),
{
    if let Some(aa) = album_artist {
        if !album.is_empty() {
            return concat3(album, "\u{1f}", aa);
        }
    }
    concat3(album, "\u{1f}dir:", dir)
}

/// A name as albums are told apart by it: trimmed, in lower case.
pub open spec fn normalized(s: Seq<char>) -> Seq<char> {
    lowercase(trim(s))
}

fn norm(s: &str) -> (r: String)
    ensures
        r@ == normalized(s@),
{
    to_lowercase(trimmed(s).as_str())
}

/// Stable album identity: (album, album artist) when an album artist is
/// tagged, else (album, directory) so untagged compilations stay together.
/// `dir` is the directory of the track.
pub fn album_id_for(tags: &TagInfo, dir: &str) -> (id: String)
    ensures
        id@ == hex_digits(
            fnv_bytes(
                encode_utf8(
                    identity(
                        normalized(
                            match tags.album {
                                Some(a) => a@,
                                None => ""@,
                            },
                        ),
                        match tags.album_artist {
                            Some(aa) => Some(normalized(aa@)),
                            None => None,
                        },
                        dir@,
                    ),
                ),
            ) as nat,
            16,
        ),
{
    let album = match &tags.album {
        Some(a) => norm(a.as_str()),
        None => norm(""),
    };
    let key = match &tags.album_artist {
        Some(aa) => {
            let artist = norm(aa.as_str());
            album_key(album.as_str(), Some(artist.as_str()), dir)
        },
        None => album_key(album.as_str(), None, dir),
    };
    hex16(fnv(key.as_str()))
}

/// Two tracks with the same album and album artist, up to case and white space
/// around them, belong to one album wherever their files are.
pub proof fn album_artist_joins_directories(
    album: Seq<char>,
    artist: Seq<char>,
    dir1: Seq<char>,
    dir2: Seq<char>,
)
    requires
        normalized(album).len() > 0,
    ensures
        identity(normalized(album), Some(normalized(artist)), dir1) == identity(
            normalized(album),
            Some(normalized(artist)),
            dir2,
        ),
{
}

} // verus!
