//! Tracks and albums as lists show them.

use vstd::prelude::*;

use crate::library::tracks::{hires, Album, Track};
use crate::text::{
    chars_of, copy_str, dec, dec_int, dec_string, int_string, lower_all, lower_chars, push_dec,
    same_chars, same_str, text_opt,
};
use crate::ui::now::{or_empty, Lookup};
use crate::ui::text::{clock, mmss, quality, quality_text, t, translated};

verus! {

/// How the rows of a list look.
#[derive(Debug)]
pub struct RowOpts {
    pub cover: bool,
    pub eager: bool,
    /// Number rows by track number (album) instead of position.
    pub track_numbers: bool,
    pub discs: bool,
    /// Hide the artist when it equals the album artist.
    pub album_artist: Option<String>,
}

/// A track as a list shows it.
#[derive(Debug)]
pub struct TrackRow {
    pub key: String,
    pub n: String,
    pub title: String,
    pub artist: String,
    pub album: String,
    pub album_id: String,
    pub dur: String,
    pub fav: bool,
    pub playing: bool,
    pub hires: bool,
    pub fmt: String,
    /// The heading of a disc that begins with this row.
    pub disc: String,
    pub ckey: String,
    pub plays: u32,
}

/// The contents of a `TrackRow`.
pub struct TrackRowView {
    pub key: Seq<char>,
    pub n: Seq<char>,
    pub title: Seq<char>,
    pub artist: Seq<char>,
    pub album: Seq<char>,
    pub album_id: Seq<char>,
    pub dur: Seq<char>,
    pub fav: bool,
    pub playing: bool,
    pub hires: bool,
    pub fmt: Seq<char>,
    pub disc: Seq<char>,
    pub ckey: Seq<char>,
    pub plays: u32,
}

impl View for TrackRow {
    type V = TrackRowView;

    open spec fn view(&self) -> TrackRowView {
        TrackRowView {
            key: self.key@,
            n: self.n@,
            title: self.title@,
            artist: self.artist@,
            album: self.album@,
            album_id: self.album_id@,
            dur: self.dur@,
            fav: self.fav,
            playing: self.playing,
            hires: self.hires,
            fmt: self.fmt@,
            disc: self.disc@,
            ckey: self.ckey@,
            plays: self.plays,
        }
    }
}

/// Whether the tracks are on more than one disc.
pub open spec fn several_discs(tracks: Seq<Track>) -> bool {
    exists|i: int, j: int|
        0 <= i < tracks.len() && 0 <= j < tracks.len() && (#[trigger] tracks[i]).disc is Some && (
        #[trigger] tracks[j]).disc is Some && tracks[i].disc != tracks[j].disc
}

/// The disc of the track before the one at `i`.
pub open spec fn disc_before(tracks: Seq<Track>, i: int) -> Option<u32> {
    if i > 0 {
        tracks[i - 1].disc
    } else {
        None
    }
}

/// The heading of a disc.
pub open spec fn disc_text(disc: Option<u32>, french: bool) -> Seq<char> {
    translated("Disc"@, french) + " "@ + dec(
        match disc {
            Some(d) => d as nat,
            None => 1,
        },
    )
}

/// The artist of a row: hidden where it is that of the album, whatever the case
/// of its letters.
pub open spec fn row_artist(artist: Option<String>, album_artist: Option<String>) -> Seq<char> {
    match (album_artist, artist) {
        (Some(aa), Some(a)) => if lower_all(aa@) == lower_all(a@) {
            ""@
        } else {
            a@
        },
        (_, a) => or_empty(a),
    }
}

/// The row of the track at `i`.
pub open spec fn track_row(
    tracks: Seq<Track>,
    i: int,
    o: RowOpts,
    now: Option<String>,
    french: bool,
) -> TrackRowView {
    let tr = tracks[i];
    TrackRowView {
        key: tr.path@,
        n: if o.track_numbers {
            match tr.track {
                Some(n) => dec(n as nat),
                None => ""@,
            }
        } else {
            dec((i + 1) as nat)
        },
        title: tr.title@,
        artist: row_artist(tr.artist, o.album_artist),
        album: or_empty(tr.album),
        album_id: tr.album_id@,
        dur: clock(tr.duration_ms),
        fav: tr.favorite,
        playing: text_opt(now) == Some(tr.path@),
        hires: hires(tr.sample_rate, tr.bits),
        fmt: quality_text(tr.sample_rate, tr.bits, text_opt(tr.codec), tr.bitrate),
        disc: if o.discs && several_discs(tracks) && tr.disc != disc_before(tracks, i) {
            disc_text(tr.disc, french)
        } else {
            ""@
        },
        ckey: if o.cover {
            tr.album_id@
        } else {
            ""@
        },
        plays: tr.play_count,
    }
}

fn on_several_discs(tracks: &[Track]) -> (r: bool)
    ensures
        r == several_discs(tracks@),
{
    let mut first: Option<u32> = None;
    for i in 0..tracks.len()
        invariant
            match first {
                Some(d) => (exists|j: int|
                    0 <= j < i && (#[trigger] tracks@[j]).disc == Some(d)) && forall|j: int|
                    0 <= j < i ==> (#[trigger] tracks@[j]).disc is None || tracks@[j].disc == Some(d),
                None => forall|j: int| 0 <= j < i ==> (#[trigger] tracks@[j]).disc is None,
            },
    {
        if let Some(d) = tracks[i].disc {
            match first {
                Some(f) => {
                    if f != d {
                        proof {
                            let j = choose|j: int|
                                0 <= j < i && (#[trigger] tracks@[j]).disc == Some(f);
                            assert(tracks@[j].disc != tracks@[i as int].disc);
                        }
                        return true;
                    }
                },
                None => {
                    first = Some(d);
                    assert(tracks@[i as int].disc == Some(d));
                },
            }
        }
    }
    false
}

fn artist_of_row(artist: &Option<String>, album_artist: &Option<String>) -> (s: String)
    ensures
        s@ == row_artist(*artist, *album_artist),
{
    match artist {
        Some(a) => {
            if let Some(aa) = album_artist {
                let x = lower_chars(&chars_of(aa.as_str()));
                let y = lower_chars(&chars_of(a.as_str()));
                if same_chars(&x, &y) {
                    return copy_str("");
                }
            }
            a.clone()
        },
        None => copy_str(""),
    }
}

fn disc_string(disc: Option<u32>, french: bool) -> (s: String)
    ensures
        s@ == disc_text(disc, french),
{
    let mut s = copy_str(t("Disc", french));
    s.push_str(" ");
    let n: u32 = match disc {
        Some(d) => d,
        None => 1,
    };
    push_dec(&mut s, n as u64);
    s
}

fn row_at(
    tracks: &[Track],
    i: usize,
    o: &RowOpts,
    several: bool,
    now: &Option<String>,
    french: bool,
) -> (r: TrackRow)
    requires
        i < tracks@.len(),
        several == several_discs(tracks@),
    ensures
        r@ == track_row(tracks@, i as int, *o, *now, french),
{
    let len = tracks.len();
    let tr = &tracks[i];
    let before: Option<u32> = if i > 0 {
        tracks[i - 1].disc
    } else {
        None
    };
    let changed = match (tr.disc, before) {
        (Some(a), Some(b)) => a != b,
        (None, None) => false,
        _ => true,
    };
    let codec: Option<&str> = match &tr.codec {
        Some(c) => Some(c.as_str()),
        None => None,
    };
    TrackRow {
        key: tr.path.clone(),
        n: if o.track_numbers {
            match tr.track {
                Some(n) => dec_string(n as u64),
                None => copy_str(""),
            }
        } else {
            dec_string(i as u64 + 1)
        },
        title: tr.title.clone(),
        artist: artist_of_row(&tr.artist, &o.album_artist),
        album: match &tr.album {
            Some(a) => a.clone(),
            None => copy_str(""),
        },
        album_id: tr.album_id.clone(),
        dur: mmss(tr.duration_ms),
        fav: tr.favorite,
        playing: match now {
            Some(p) => same_str(p.as_str(), tr.path.as_str()),
            None => false,
        },
        hires: tr.is_hires(),
        fmt: quality(tr.sample_rate, tr.bits, codec, tr.bitrate),
        disc: if o.discs && several && changed {
            disc_string(tr.disc, french)
        } else {
            copy_str("")
        },
        ckey: if o.cover {
            tr.album_id.clone()
        } else {
            copy_str("")
        },
        plays: tr.play_count,
    }
}

/// The rows of some tracks; `now` is the path of the one that plays.
pub fn track_rows(tracks: &[Track], o: &RowOpts, now: &Option<String>, french: bool) -> (rows: Vec<
    TrackRow,
>)
    ensures
        rows@.len() == tracks@.len(),
        forall|i: int|
            0 <= i < rows@.len() ==> (#[trigger] rows@[i])@ == track_row(
                tracks@,
                i,
                *o,
                *now,
                french,
            ),
{
    let several = on_several_discs(tracks);
    let mut rows: Vec<TrackRow> = Vec::new();
    for i in 0..tracks.len()
        invariant
            several == several_discs(tracks@),
            rows@.len() == i,
            forall|k: int|
                0 <= k < i ==> (#[trigger] rows@[k])@ == track_row(tracks@, k, *o, *now, french),
    {
        rows.push(row_at(tracks, i, o, several, now, french));
    }
    rows
}

/// What to ask for where the cover of an album is missing: nothing for one of
/// various artists.
pub fn album_lookup(a: &Album) -> (r: Option<Lookup>)
    ensures
        match r {
            Some(l) => a.artist@ != "Various Artists"@ && l.artist@ == a.artist@ && l.album@
                == a.title@,
            None => a.artist@ == "Various Artists"@,
        },
{
    if same_str(a.artist.as_str(), "Various Artists") {
        None
    } else {
        Some(Lookup { artist: a.artist.clone(), album: a.title.clone() })
    }
}

/// The year of an album, if it is known.
pub fn album_year(a: &Album) -> (s: String)
    ensures
        s@ == (match a.year {
            Some(y) => dec_int(y as int),
            None => ""@,
        }),
{
    match a.year {
        Some(y) => int_string(y as i64),
        None => copy_str(""),
    }
}

/// The codec and the quality of an album, as far as they are known.
pub open spec fn album_quality_text(a: Album) -> Seq<char> {
    let q = quality_text(a.max_rate, a.max_bits, text_opt(a.codec), None);
    match a.codec {
        Some(c) => if q.len() > 0 {
            c@ + " "@ + q
        } else {
            c@
        },
        None => q,
    }
}

/// The codec and the quality of an album.
pub fn album_quality(a: &Album) -> (s: String)
    ensures
        s@ == album_quality_text(*a),
{
    let codec: Option<&str> = match &a.codec {
        Some(c) => Some(c.as_str()),
        None => None,
    };
    let q = quality(a.max_rate, a.max_bits, codec, None);
    match codec {
        Some(c) => if q.as_str().is_empty() {
            copy_str(c)
        } else {
            let mut s = copy_str(c);
            s.push_str(" ");
            s.push_str(q.as_str());
            s
        },
        None => q,
    }
}

/// Marks the rows of the file that plays, and no other.
pub fn mark_playing(rows: &mut Vec<TrackRow>, path: Option<&str>)
    ensures
        final(rows)@.len() == old(rows)@.len(),
        forall|i: int|
            0 <= i < old(rows)@.len() ==> (#[trigger] final(rows)@[i])@ == (TrackRowView {
                playing: path matches Some(p) && old(rows)@[i].key@ == p@,
                ..old(rows)@[i]@
            }),
{
    let n: usize = rows.len();
    for i in 0..n
        invariant
            n == rows@.len() == old(rows)@.len(),
            forall|k: int|
                0 <= k < i ==> (#[trigger] rows@[k])@ == (TrackRowView {
                    playing: path matches Some(p) && old(rows)@[k].key@ == p@,
                    ..old(rows)@[k]@
                }),
            forall|k: int| i <= k < rows@.len() ==> (#[trigger] rows@[k]) == old(rows)@[k],
    {
        let playing = match path {
            Some(p) => same_str(rows[i].key.as_str(), p),
            None => false,
        };
        rows[i].playing = playing;
    }
}

/// Shows on the rows of a file whether it is a favourite.
pub fn mark_fav(rows: &mut Vec<TrackRow>, path: &str, fav: bool)
    ensures
        final(rows)@.len() == old(rows)@.len(),
        forall|i: int|
            0 <= i < old(rows)@.len() ==> (#[trigger] final(rows)@[i])@ == (TrackRowView {
                fav: if old(rows)@[i].key@ == path@ {
                    fav
                } else {
                    old(rows)@[i].fav
                },
                ..old(rows)@[i]@
            }),
{
    let n: usize = rows.len();
    for i in 0..n
        invariant
            n == rows@.len() == old(rows)@.len(),
            forall|k: int|
                0 <= k < i ==> (#[trigger] rows@[k])@ == (TrackRowView {
                    fav: if old(rows)@[k].key@ == path@ {
                        fav
                    } else {
                        old(rows)@[k].fav
                    },
                    ..old(rows)@[k]@
                }),
            forall|k: int| i <= k < rows@.len() ==> (#[trigger] rows@[k]) == old(rows)@[k],
    {
        if same_str(rows[i].key.as_str(), path) {
            rows[i].fav = fav;
        }
    }
}

} // verus!
