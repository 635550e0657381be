//! Tags and technical metadata of a track, covers and lyrics beside it.

use vstd::prelude::*;
use vstd::slice::slice_subrange;

use crate::order::{chars_le, text_le, text_order_is_total, text_order_is_transitive};
use crate::text::{
    all_digits, chars_of, copy_chars, copy_str, digits_value, index_from, index_of, is_digit,
    is_white_space, lower_all, lower_chars, parse_unsigned, read_unsigned, same_chars, starts_with,
    starts_with_chars, string_of, text_opt, trim, trim_of, value_of, white_space,
};

verus! {

/// Tags + technical metadata for one track. Gains and peaks are the bits of
/// `f32` values.
#[derive(Debug, Clone)]
pub struct TagInfo {
    pub title: Option<String>,
    pub artist: Option<String>,
    pub album_artist: Option<String>,
    pub album: Option<String>,
    pub track: Option<u32>,
    pub disc: Option<u32>,
    pub year: Option<i32>,
    pub genre: Option<String>,
    pub composer: Option<String>,
    pub duration_ms: u64,
    pub sample_rate: Option<u32>,
    pub bits: Option<u8>,
    pub channels: Option<u8>,
    /// kbit/s
    pub bitrate: Option<u32>,
    pub codec: Option<String>,
    pub rg_track_gain: Option<u32>,
    pub rg_track_peak: Option<u32>,
    pub rg_album_gain: Option<u32>,
    pub rg_album_peak: Option<u32>,
    pub mb_album_id: Option<String>,
    pub mb_track_id: Option<String>,
}

/// Nothing known.
pub open spec fn no_tags() -> TagInfo {
    TagInfo {
        title: None,
        artist: None,
        album_artist: None,
        album: None,
        track: None,
        disc: None,
        year: None,
        genre: None,
        composer: None,
        duration_ms: 0,
        sample_rate: None,
        bits: None,
        channels: None,
        bitrate: None,
        codec: None,
        rg_track_gain: None,
        rg_track_peak: None,
        rg_album_gain: None,
        rg_album_peak: None,
        mb_album_id: None,
        mb_track_id: None,
    }
}

impl Default for TagInfo {
    fn default() -> (r: TagInfo)
        ensures
            r == no_tags(),
    {
        TagInfo {
            title: None,
            artist: None,
            album_artist: None,
            album: None,
            track: None,
            disc: None,
            year: None,
            genre: None,
            composer: None,
            duration_ms: 0,
            sample_rate: None,
            bits: None,
            channels: None,
            bitrate: None,
            codec: None,
            rg_track_gain: None,
            rg_track_peak: None,
            rg_album_gain: None,
            rg_album_peak: None,
            mb_album_id: None,
            mb_track_id: None,
        }
    }
}

// ---------------------------------------------------------------------------
// Fields
// ---------------------------------------------------------------------------

/// The number in a tag such as `3` or `3/12`.
pub open spec fn tag_number(v: Seq<char>) -> Option<u32> {
    match read_unsigned(trim(v.subrange(0, index_from(v, '/', 0))), u32::MAX as nat) {
        Some(n) => Some(n as u32),
        None => None,
    }
}

pub fn parse_u32(s: Option<&str>) -> (r: Option<u32>)
    ensures
        r == (match s {
            Some(v) => tag_number(v@),
            None => None,
        }),
{
    match s {
        Some(v) => {
            let c = chars_of(v);
            let n = index_of(&c, '/', 0);
            match parse_unsigned(trim_of(slice_subrange(&c, 0, n)), u32::MAX as u64) {
                Some(n) => Some(n as u32),
                None => None,
            }
        },
        None => None,
    }
}

/// How many decimal digits `s` starts with.
pub open spec fn digit_count(s: Seq<char>) -> nat
    decreases s.len(),
{
    if s.len() > 0 && is_digit(s[0]) {
        1 + digit_count(s.drop_first())
    } else {
        0
    }
}

/// The year at the start of a date, between 1000 and 2999.
pub open spec fn tag_year(v: Seq<char>) -> Option<i32> {
    let t = trim(v);
    let n = digit_count(t);
    let y = value_of(t.subrange(0, n as int));
    if n > 0 && 1000 <= y < 3000 {
        Some(y as i32)
    } else {
        None
    }
}

proof fn lemma_digit_count(s: Seq<char>, n: int)
    requires
        0 <= n <= s.len(),
        forall|j: int| 0 <= j < n ==> is_digit(#[trigger] s[j]),
        n < s.len() ==> !is_digit(s[n]),
    ensures
        digit_count(s) == n,
    decreases n,
{
    if n > 0 {
        assert(is_digit(s[0]));
        let rest = s.drop_first();
        assert forall|j: int| 0 <= j < n - 1 implies is_digit(#[trigger] rest[j]) by {
            assert(rest[j] == s[j + 1]);
        }
        lemma_digit_count(rest, n - 1);
    }
}

/// A text without the unit behind a number: letters and white space.
pub open spec fn without_unit(s: Seq<char>) -> Seq<char>
    decreases s.len(),
{
    if s.len() > 0 && (('a' <= s.last() <= 'z') || ('A' <= s.last() <= 'Z') || white_space(
        s.last(),
    )) {
        without_unit(s.drop_last())
    } else {
        s
    }
}

/// The number of a gain or a peak: `-6.54 dB` holds `-6.54`.
pub fn gain_number(s: &str) -> (r: String)
    ensures
        r@ == trim(without_unit(trim(s@))),
{
    let c = chars_of(s);
    let t = trim_of(&c);
    let mut n: usize = t.len();
    assert(t@.subrange(0, t@.len() as int) == t@);
    while n > 0 && (('a' <= t[n - 1] && t[n - 1] <= 'z') || ('A' <= t[n - 1] && t[n - 1] <= 'Z')
        || is_white_space(t[n - 1]))
        invariant
            n <= t@.len(),
            without_unit(t@.subrange(0, n as int)) == without_unit(t@),
        decreases n,
    {
        assert(t@.subrange(0, n as int).drop_last() == t@.subrange(0, n - 1));
        n = n - 1;
    }
    string_of(trim_of(slice_subrange(t, 0, n)))
}

pub fn parse_year(s: Option<&str>) -> (r: Option<i32>)
    ensures
        r == (match s {
            Some(v) => tag_year(v@),
            None => None,
        }),
{
    match s {
        Some(v) => {
            let c = chars_of(v);
            let t = trim_of(&c);
            let mut n: usize = 0;
            while n < t.len() && '0' <= t[n] && t[n] <= '9'
                invariant
                    n <= t.len(),
                    forall|j: int| 0 <= j < n ==> is_digit(#[trigger] t@[j]),
                decreases t.len() - n,
            {
                n = n + 1;
            }
            proof {
                lemma_digit_count(t@, n as int);
            }
            let digits = slice_subrange(t, 0, n);
            match digits_value(digits, 2999) {
                Some(y) => if y >= 1000 {
                    Some(y as i32)
                } else {
                    None
                },
                None => {
                    assert(n > 0 ==> all_digits(digits@)) by {
                        assert forall|j: int| 0 <= j < digits@.len() implies is_digit(
                            #[trigger] digits@[j],
                        ) by {
                            assert(digits@[j] == t@[j]);
                        }
                    }
                    None
                },
            }
        },
        None => None,
    }
}

/// Container formats that are told apart.
#[derive(Debug, Clone, Copy, PartialEq, Eq, Structural)]
pub enum FileKind {
    Flac,
    Mpeg,
    Wav,
    Aiff,
    Vorbis,
    Opus,
    Mp4,
    Ape,
    WavPack,
    Speex,
    Other,
}

/// The name of the codec in a file. MP4 can hold AAC or ALAC: a bit depth
/// means lossless ALAC.
pub open spec fn codec_text(kind: FileKind, has_depth: bool) -> Seq<char> {
    match kind {
        FileKind::Flac => "FLAC"@,
        FileKind::Mpeg => "MP3"@,
        FileKind::Wav => "WAV"@,
        FileKind::Aiff => "AIFF"@,
        FileKind::Vorbis => "Vorbis"@,
        FileKind::Opus => "Opus"@,
        FileKind::Mp4 => if has_depth {
            "ALAC"@
        } else {
            "AAC"@
        },
        FileKind::Ape => "APE"@,
        FileKind::WavPack => "WavPack"@,
        FileKind::Speex => "Speex"@,
        FileKind::Other => "?"@,
    }
}

pub fn codec_name(kind: FileKind, has_depth: bool) -> (s: &'static str)
    ensures
        s@ == codec_text(kind, has_depth),
{
    match kind {
        FileKind::Flac => "FLAC",
        FileKind::Mpeg => "MP3",
        FileKind::Wav => "WAV",
        FileKind::Aiff => "AIFF",
        FileKind::Vorbis => "Vorbis",
        FileKind::Opus => "Opus",
        FileKind::Mp4 => if has_depth {
            "ALAC"
        } else {
            "AAC"
        },
        FileKind::Ape => "APE",
        FileKind::WavPack => "WavPack",
        FileKind::Speex => "Speex",
        FileKind::Other => "?",
    }
}

/// The text of a tag: trimmed, and none where nothing is left.
pub open spec fn tag_text(raw: Option<Seq<char>>) -> Option<Seq<char>> {
    match raw {
        Some(s) => if trim(s).len() > 0 {
            Some(trim(s))
        } else {
            None
        },
        None => None,
    }
}

pub fn text(raw: &Option<String>) -> (r: Option<String>)
    ensures
        text_opt(r) == tag_text(text_opt(*raw)),
{
    match raw {
        Some(s) => {
            let c = chars_of(s.as_str());
            let t = trim_of(&c);
            if t.len() > 0 {
                Some(string_of(t))
            } else {
                None
            }
        },
        None => None,
    }
}

/// What a tag reader found in a file.
#[derive(Debug)]
pub struct RawTags {
    pub title: Option<String>,
    pub artist: Option<String>,
    pub album_artist: Option<String>,
    pub album: Option<String>,
    pub track: Option<String>,
    pub disc: Option<String>,
    pub recording_date: Option<String>,
    pub year: Option<String>,
    pub release_date: Option<String>,
    pub original_date: Option<String>,
    pub genre: Option<String>,
    pub composer: Option<String>,
    pub duration_ms: u64,
    pub sample_rate: Option<u32>,
    pub bits: Option<u8>,
    pub channels: Option<u8>,
    pub audio_bitrate: Option<u32>,
    pub overall_bitrate: Option<u32>,
    pub kind: FileKind,
    pub rg_track_gain: Option<u32>,
    pub rg_track_peak: Option<u32>,
    pub rg_album_gain: Option<u32>,
    pub rg_album_peak: Option<u32>,
    pub mb_album_id: Option<String>,
    pub mb_track_id: Option<String>,
}

pub open spec fn number_in(raw: Option<String>) -> Option<u32> {
    match raw {
        Some(s) => tag_number(s@),
        None => None,
    }
}

pub open spec fn year_in(raw: Option<String>) -> Option<i32> {
    match raw {
        Some(s) => tag_year(s@),
        None => None,
    }
}

/// The first of the dates that gives a year: when it was recorded, its year,
/// when it was released, when it first was.
pub open spec fn first_year(r: RawTags) -> Option<i32> {
    if year_in(r.recording_date) is Some {
        year_in(r.recording_date)
    } else if year_in(r.year) is Some {
        year_in(r.year)
    } else if year_in(r.release_date) is Some {
        year_in(r.release_date)
    } else {
        year_in(r.original_date)
    }
}

/// Whether `t` is what the raw tags come to.
pub open spec fn tags_read(raw: RawTags, fallback_title: Seq<char>, t: TagInfo) -> bool {
    &&& text_opt(t.title) == (match tag_text(text_opt(raw.title)) {
        Some(s) => Some(s),
        None => Some(fallback_title),
    })
    &&& text_opt(t.artist) == tag_text(text_opt(raw.artist))
    &&& text_opt(t.album_artist) == tag_text(text_opt(raw.album_artist))
    &&& text_opt(t.album) == tag_text(text_opt(raw.album))
    &&& t.track == number_in(raw.track)
    &&& t.disc == number_in(raw.disc)
    &&& t.year == first_year(raw)
    &&& text_opt(t.genre) == tag_text(text_opt(raw.genre))
    &&& text_opt(t.composer) == tag_text(text_opt(raw.composer))
    &&& t.duration_ms == raw.duration_ms
    &&& t.sample_rate == raw.sample_rate
    &&& t.bits == raw.bits
    &&& t.channels == raw.channels
    &&& t.bitrate == (if raw.audio_bitrate is Some {
        raw.audio_bitrate
    } else {
        raw.overall_bitrate
    })
    &&& text_opt(t.codec) == Some(codec_text(raw.kind, raw.bits is Some))
    &&& t.rg_track_gain == raw.rg_track_gain
    &&& t.rg_track_peak == raw.rg_track_peak
    &&& t.rg_album_gain == raw.rg_album_gain
    &&& t.rg_album_peak == raw.rg_album_peak
    &&& text_opt(t.mb_album_id) == tag_text(text_opt(raw.mb_album_id))
    &&& text_opt(t.mb_track_id) == tag_text(text_opt(raw.mb_track_id))
}

fn opt_str(s: &Option<String>) -> (r: Option<&str>)
    ensures
        match s {
            Some(x) => r matches Some(y) && y@ == x@,
            None => r is None,
        },
{
    match s {
        Some(x) => Some(x.as_str()),
        None => None,
    }
}

fn find_year(raw: &RawTags) -> (r: Option<i32>)
    ensures
        r == first_year(*raw),
{
    let a = parse_year(opt_str(&raw.recording_date));
    if a.is_some() {
        return a;
    }
    let b = parse_year(opt_str(&raw.year));
    if b.is_some() {
        return b;
    }
    let c = parse_year(opt_str(&raw.release_date));
    if c.is_some() {
        return c;
    }
    parse_year(opt_str(&raw.original_date))
}

/// The tags of a file. One that cannot be read has only its name for a title.
pub fn read_tags(raw: Option<RawTags>, fallback_title: String) -> (t: TagInfo)
    ensures
        match raw {
            Some(r) => tags_read(r, fallback_title@, t),
            None => t == (TagInfo { title: Some(fallback_title), ..no_tags() }),
        },
{
    let raw = match raw {
        Some(r) => r,
        None => {
            let mut t = TagInfo::default();
            t.title = Some(fallback_title);
            return t;
        },
    };
    let title = match text(&raw.title) {
        Some(t) => Some(t),
        None => Some(fallback_title),
    };
    TagInfo {
        title,
        artist: text(&raw.artist),
        album_artist: text(&raw.album_artist),
        album: text(&raw.album),
        track: parse_u32(opt_str(&raw.track)),
        disc: parse_u32(opt_str(&raw.disc)),
        year: find_year(&raw),
        genre: text(&raw.genre),
        composer: text(&raw.composer),
        duration_ms: raw.duration_ms,
        sample_rate: raw.sample_rate,
        bits: raw.bits,
        channels: raw.channels,
        bitrate: if raw.audio_bitrate.is_some() {
            raw.audio_bitrate
        } else {
            raw.overall_bitrate
        },
        codec: Some(copy_str(codec_name(raw.kind, raw.bits.is_some()))),
        rg_track_gain: raw.rg_track_gain,
        rg_track_peak: raw.rg_track_peak,
        rg_album_gain: raw.rg_album_gain,
        rg_album_peak: raw.rg_album_peak,
        mb_album_id: text(&raw.mb_album_id),
        mb_track_id: text(&raw.mb_track_id),
    }
}

/// The lyrics beside or in a file: a sidecar `.lrc` that is not blank as it
/// stands, else an embedded text.
pub fn local_lyrics(
    sidecar: Option<String>,
    lyrics: Option<String>,
    unsynced: Option<String>,
) -> (r: Option<String>)
    ensures
        text_opt(r) == (match text_opt(sidecar) {
            Some(s) => if trim(s).len() > 0 {
                Some(s)
            } else if tag_text(text_opt(lyrics)) is Some {
                tag_text(text_opt(lyrics))
            } else {
                tag_text(text_opt(unsynced))
            },
            None => if tag_text(text_opt(lyrics)) is Some {
                tag_text(text_opt(lyrics))
            } else {
                tag_text(text_opt(unsynced))
            },
        }),
{
    if let Some(s) = sidecar {
        let c = chars_of(s.as_str());
        if trim_of(&c).len() > 0 {
            return Some(s);
        }
    }
    match text(&lyrics) {
        Some(t) => Some(t),
        None => text(&unsynced),
    }
}

// ---------------------------------------------------------------------------
// Covers
// ---------------------------------------------------------------------------

/// Kinds of embedded pictures that are told apart.
#[derive(Debug, Clone, Copy, PartialEq, Eq, Structural)]
pub enum PictureKind {
    CoverFront,
    /// A picture of some other declared kind.
    Declared,
    Other,
}

/// Whether `i` is the first picture of the given kind.
pub open spec fn first_picture(kinds: Seq<PictureKind>, kind: PictureKind, i: int) -> bool {
    0 <= i < kinds.len() && kinds[i] == kind && forall|j: int|
        0 <= j < i ==> #[trigger] kinds[j] != kind
}

/// The picture to show: the first front cover, else the first whose kind is
/// declared, else the first.
pub fn front_picture(kinds: &[PictureKind]) -> (r: Option<usize>)
    ensures
        kinds@.len() == 0 ==> r is None,
        kinds@.contains(PictureKind::CoverFront) ==> (r matches Some(i) && first_picture(
            kinds@,
            PictureKind::CoverFront,
            i as int,
        )),
        !kinds@.contains(PictureKind::CoverFront) && kinds@.contains(PictureKind::Declared) ==> (
        r matches Some(i) && first_picture(kinds@, PictureKind::Declared, i as int)),
        kinds@.len() > 0 && !kinds@.contains(PictureKind::CoverFront) && !kinds@.contains(
            PictureKind::Declared,
        ) ==> r == Some(0usize),
{
    let mut declared: Option<usize> = None;
    for i in 0..kinds.len()
        invariant
            forall|j: int| 0 <= j < i ==> #[trigger] kinds@[j] != PictureKind::CoverFront,
            match declared {
                Some(d) => d < i && first_picture(kinds@, PictureKind::Declared, d as int),
                None => forall|j: int| 0 <= j < i ==> #[trigger] kinds@[j]
                    != PictureKind::Declared,
            },
    {
        if kinds[i] == PictureKind::CoverFront {
            return Some(i);
        }
        if declared.is_none() && kinds[i] == PictureKind::Declared {
            declared = Some(i);
        }
    }
    if declared.is_some() {
        declared
    } else if kinds.len() > 0 {
        Some(0)
    } else {
        None
    }
}

/// Where the last dot of a file name stands, unless the name starts with it.
pub open spec fn dot_in(name: Seq<char>, n: int) -> Option<int>
    decreases n,
{
    if n <= 1 || n > name.len() {
        None
    } else if name[n - 1] == '.' {
        Some(n - 1)
    } else {
        dot_in(name, n - 1)
    }
}

/// The extension of a file name.
pub open spec fn extension(name: Seq<char>) -> Option<Seq<char>> {
    match dot_in(name, name.len() as int) {
        Some(i) => Some(name.subrange(i + 1, name.len() as int)),
        None => None,
    }
}

/// A file name without its extension.
pub open spec fn stem(name: Seq<char>) -> Seq<char> {
    match dot_in(name, name.len() as int) {
        Some(i) => name.subrange(0, i),
        None => name,
    }
}

fn find_dot(name: &[char]) -> (r: Option<usize>)
    ensures
        match dot_in(name@, name@.len() as int) {
            Some(i) => r == Some(i as usize) && 0 < i < name@.len(),
            None => r is None,
        },
{
    let mut n: usize = name.len();
    while n > 1
        invariant
            n <= name.len(),
            dot_in(name@, name@.len() as int) == dot_in(name@, n as int),
        decreases n,
    {
        if name[n - 1] == '.' {
            return Some(n - 1);
        }
        n = n - 1;
    }
    None
}

/// The extension of a file name.
pub fn extension_of(name: &[char]) -> (r: Option<Vec<char>>)
    ensures
        match extension(name@) {
            Some(want) => r matches Some(got) && got@ == want,
            None => r is None,
        },
{
    let n = name.len();
    match find_dot(name) {
        Some(i) => Some(copy_chars(slice_subrange(name, i + 1, n))),
        None => None,
    }
}

/// A file name without its extension.
pub fn stem_of(name: &[char]) -> (r: Vec<char>)
    ensures
        r@ == stem(name@),
{
    let n = name.len();
    match find_dot(name) {
        Some(i) => copy_chars(slice_subrange(name, 0, i)),
        None => {
            assert(name@.subrange(0, n as int) == name@);
            copy_chars(slice_subrange(name, 0, n))
        },
    }
}

/// Whether a file name is that of an image.
pub open spec fn is_image(name: Seq<char>) -> bool {
    match extension(name) {
        Some(e) => {
            let e = lower_all(e);
            e == "jpg"@ || e == "jpeg"@ || e == "png"@ || e == "webp"@
        },
        None => false,
    }
}

/// Whether a file name is one that covers usually have.
pub open spec fn is_cover_name(name: Seq<char>) -> bool {
    let s = lower_all(stem(name));
    s == "cover"@ || s == "folder"@ || s == "front"@ || s == "album"@ || s == "albumart"@ || s
        == "albumartsmall"@
}

fn image_name(name: &[char]) -> (r: bool)
    ensures
        r == is_image(name@),
{
    match extension_of(name) {
        Some(e) => {
            let e = lower_chars(&e);
            same_chars(&e, &chars_of("jpg")) || same_chars(&e, &chars_of("jpeg")) || same_chars(
                &e,
                &chars_of("png"),
            ) || same_chars(&e, &chars_of("webp"))
        },
        None => false,
    }
}

fn cover_name(name: &[char]) -> (r: bool)
    ensures
        r == is_cover_name(name@),
{
    let s = lower_chars(&stem_of(name));
    same_chars(&s, &chars_of("cover")) || same_chars(&s, &chars_of("folder")) || same_chars(
        &s,
        &chars_of("front"),
    ) || same_chars(&s, &chars_of("album")) || same_chars(&s, &chars_of("albumart"))
        || same_chars(&s, &chars_of("albumartsmall"))
}

/// Whether `i` is the first name in order among those that pass the test.
pub open spec fn least_name(
    names: Seq<String>,
    test: spec_fn(Seq<char>) -> bool,
    i: int,
) -> bool {
    &&& 0 <= i < names.len()
    &&& test(names[i]@)
    &&& forall|j: int|
        0 <= j < names.len() && test(#[trigger] names[j]@) ==> text_le(names[i]@, names[j]@)
}

pub open spec fn image_test() -> spec_fn(Seq<char>) -> bool {
    |n: Seq<char>| is_image(n)
}

pub open spec fn cover_test() -> spec_fn(Seq<char>) -> bool {
    |n: Seq<char>| is_image(n) && is_cover_name(n)
}

/// The image to take for a cover among the files of a directory: of those with
/// a usual name the first in order, else the first image in order.
pub fn folder_cover(names: &Vec<String>) -> (r: Option<usize>)
    ensures
        match r {
            Some(i) => least_name(names@, cover_test(), i as int) || ((forall|j: int|
                0 <= j < names@.len() ==> !cover_test()(#[trigger] names@[j]@)) && least_name(
                names@,
                image_test(),
                i as int,
            )),
            None => forall|j: int| 0 <= j < names@.len() ==> !is_image(#[trigger] names@[j]@),
        },
{
    let mut best: Option<usize> = None;
    let mut named: Option<usize> = None;
    for i in 0..names.len()
        invariant
            match best {
                Some(b) => b < i && image_test()(names@[b as int]@) && forall|j: int|
                    0 <= j < i && image_test()(#[trigger] names@[j]@) ==> text_le(
                        names@[b as int]@,
                        names@[j]@,
                    ),
                None => forall|j: int| 0 <= j < i ==> !image_test()(#[trigger] names@[j]@),
            },
            match named {
                Some(b) => b < i && cover_test()(names@[b as int]@) && forall|j: int|
                    0 <= j < i && cover_test()(#[trigger] names@[j]@) ==> text_le(
                        names@[b as int]@,
                        names@[j]@,
                    ),
                None => forall|j: int| 0 <= j < i ==> !cover_test()(#[trigger] names@[j]@),
            },
    {
        let name = chars_of(names[i].as_str());
        proof {
            text_order_is_total(name@, name@);
        }
        if image_name(&name) {
            best = pick_least(names, best, i, Ghost(image_test()));
            if cover_name(&name) {
                named = pick_least(names, named, i, Ghost(cover_test()));
            }
        }
    }
    match named {
        Some(n) => Some(n),
        None => best,
    }
}

fn pick_least(
    names: &Vec<String>,
    best: Option<usize>,
    i: usize,
    test: Ghost<spec_fn(Seq<char>) -> bool>,
) -> (r: Option<usize>)
    requires
        i < names@.len(),
        test@(names@[i as int]@),
        match best {
            Some(b) => b < i && test@(names@[b as int]@) && forall|j: int|
                0 <= j < i && test@(#[trigger] names@[j]@) ==> text_le(
                    names@[b as int]@,
                    names@[j]@,
                ),
            None => forall|j: int| 0 <= j < i ==> !test@(#[trigger] names@[j]@),
        },
    ensures
        r matches Some(b) && b <= i && test@(names@[b as int]@) && forall|j: int|
            0 <= j <= i && test@(#[trigger] names@[j]@) ==> text_le(
                names@[b as int]@,
                names@[j]@,
            ),
{
    match best {
        Some(b) => {
            let old_best = chars_of(names[b].as_str());
            let new = chars_of(names[i].as_str());
            proof {
                text_order_is_total(old_best@, new@);
                text_order_is_total(new@, new@);
            }
            if chars_le(&old_best, &new) {
                Some(b)
            } else {
                proof {
                    assert forall|j: int| 0 <= j <= i && test@(#[trigger] names@[j]@) implies
                        text_le(names@[i as int]@, names@[j]@) by {
                        if j < i {
                            text_order_is_transitive(new@, old_best@, names@[j]@);
                        }
                    }
                }
                Some(i)
            }
        },
        None => {
            proof {
                text_order_is_total(names@[i as int]@, names@[i as int]@);
            }
            Some(i)
        },
    }
}

/// Whether a directory is one of several for the discs of an album (`CD1/`):
/// its parent is searched for a cover too.
pub fn is_disc_dir(name: &str) -> (r: bool)
    ensures
        r == (starts_with(lower_all(name@), "cd"@) || starts_with(lower_all(name@), "disc"@)
            || starts_with(lower_all(name@), "disk"@)),
{
    let n = lower_chars(&chars_of(name));
    starts_with_chars(&n, &chars_of("cd")) || starts_with_chars(&n, &chars_of("disc"))
        || starts_with_chars(&n, &chars_of("disk"))
}

/// The MIME type of an image file, by its extension.
pub fn image_mime(ext: &str) -> (s: &'static str)
    ensures
        s@ == (if lower_all(ext@) == "png"@ {
            "image/png"@
        } else if lower_all(ext@) == "webp"@ {
            "image/webp"@
        } else {
            "image/jpeg"@
        }),
{
    let e = lower_chars(&chars_of(ext));
    if same_chars(&e, &chars_of("png")) {
        "image/png"
    } else if same_chars(&e, &chars_of("webp")) {
        "image/webp"
    } else {
        "image/jpeg"
    }
}

} // verus!
