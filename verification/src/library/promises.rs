//! What the library promises of tags, scans, searches and playlists, stated over
//! the files and the words themselves.

use vstd::prelude::*;

use crate::library::covers::{
    image_size, is_thumb_of, jpeg_image, jpeg_image_within, pixels_for, rgba_image, sanitary,
    sanitized, thumb_name, thumbnail_of, Filter,
};
use crate::library::meta::{
    codec_text, cover_test, digit_count, dot_in, extension, first_year, image_test, is_cover_name,
    is_image, no_tags, stem, tag_number, tag_text, tag_year, tags_read, without_unit, year_in,
    FileKind, RawTags, TagInfo,
};
use crate::library::playlists::{entry_text, m3u_line, m3u_text, M3uEntry};
use crate::library::scan::{
    distinct_paths, gone_test, positions, supported, todo_test, under, Scanned,
};
use crate::library::search::{
    artist_order, in_id_order, name_rank, position_from, quoted, terms, terms_to, wanted,
    wanted_artists,
};
use crate::library::tracks::{fnv_bytes, hex_digits, hires, identity, AlbumSort, Artist, TrackSort};
use crate::paths::joined;
use crate::text::{
    dec, index_from, is_digit, lower_all, read_unsigned, starts_with, text_opt, trim, value_of,
};
use crate::uri::path_of;

verus! {

// ---------------------------------------------------------------------------
// Tags
// ---------------------------------------------------------------------------

/// Each tag ends up in its own field, without the white space around it; the
/// title falls back to the name of the file.
pub proof fn each_tag_has_its_field(raw: RawTags, name: Seq<char>, t: TagInfo)
    requires
        tags_read(raw, name, t),
    ensures
        raw.title matches Some(s) ==> (trim(s@).len() > 0 ==> text_opt(t.title) == Some(trim(s@))),
        raw.title is None ==> text_opt(t.title) == Some(name),
        raw.artist matches Some(s) ==> (trim(s@).len() > 0 ==> text_opt(t.artist) == Some(
            trim(s@),
        )),
        raw.artist is None ==> t.artist is None,
        raw.album_artist matches Some(s) ==> (trim(s@).len() > 0 ==> text_opt(t.album_artist)
            == Some(trim(s@))),
        raw.album matches Some(s) ==> (trim(s@).len() > 0 ==> text_opt(t.album) == Some(trim(s@))),
        raw.genre matches Some(s) ==> (trim(s@).len() > 0 ==> text_opt(t.genre) == Some(trim(s@))),
        raw.composer matches Some(s) ==> (trim(s@).len() > 0 ==> text_opt(t.composer) == Some(
            trim(s@),
        )),
        raw.track matches Some(s) ==> t.track == tag_number(s@),
        raw.disc matches Some(s) ==> t.disc == tag_number(s@),
        t.duration_ms == raw.duration_ms,
        t.sample_rate == raw.sample_rate,
        t.bits == raw.bits,
        t.channels == raw.channels,
        raw.audio_bitrate is Some ==> t.bitrate == raw.audio_bitrate,
        raw.audio_bitrate is None ==> t.bitrate == raw.overall_bitrate,
        t.rg_track_gain == raw.rg_track_gain,
        t.rg_track_peak == raw.rg_track_peak,
        t.rg_album_gain == raw.rg_album_gain,
        t.rg_album_peak == raw.rg_album_peak,
{
}

/// The year is that of the recording where it is tagged, else the plain year,
/// else that of the release, else the original one.
pub proof fn the_recording_year_comes_first(r: RawTags)
    ensures
        year_in(r.recording_date) is Some ==> first_year(r) == year_in(r.recording_date),
        year_in(r.recording_date) is None && year_in(r.year) is Some ==> first_year(r) == year_in(
            r.year,
        ),
        year_in(r.recording_date) is None && year_in(r.year) is None && year_in(r.release_date)
            is Some ==> first_year(r) == year_in(r.release_date),
        year_in(r.recording_date) is None && year_in(r.year) is None && year_in(r.release_date)
            is None ==> first_year(r) == year_in(r.original_date),
{
}

/// A year has four digits: it lies from 1000 to 2999, and is what a date begins
/// with.
pub proof fn a_year_has_four_digits(v: Seq<char>)
    ensures
        tag_year(v) matches Some(y) ==> 1000 <= y <= 2999 && y == value_of(
            trim(v).subrange(0, digit_count(trim(v)) as int),
        ),
        digit_count(trim(v)) == 0 ==> tag_year(v) is None,
{
}

proof fn lemma_digit_count(s: Seq<char>)
    ensures
        digit_count(s) <= s.len(),
        forall|i: int| 0 <= i < digit_count(s) ==> is_digit(#[trigger] s[i]),
        digit_count(s) < s.len() ==> !is_digit(s[digit_count(s) as int]),
    decreases s.len(),
{
    if s.len() > 0 && is_digit(s[0]) {
        let t = s.drop_first();
        lemma_digit_count(t);
        assert forall|i: int| 0 <= i < digit_count(s) implies is_digit(#[trigger] s[i]) by {
            if i > 0 {
                assert(s[i] == t[i - 1]);
            }
        }
    }
}

/// The digits at the front of a text are counted up to the first other character.
pub proof fn front_digits_are_counted(s: Seq<char>)
    ensures
        digit_count(s) <= s.len(),
        forall|i: int| 0 <= i < digit_count(s) ==> is_digit(#[trigger] s[i]),
        digit_count(s) < s.len() ==> !is_digit(s[digit_count(s) as int]),
{
    lemma_digit_count(s);
}

proof fn lemma_no_slash(s: Seq<char>, i: int)
    requires
        0 <= i <= s.len(),
        forall|j: int| i <= j < s.len() ==> s[j] != '/',
    ensures
        index_from(s, '/', i) == s.len(),
    decreases s.len() - i,
{
    if i < s.len() {
        lemma_no_slash(s, i + 1);
    }
}

proof fn lemma_first_slash(s: Seq<char>, n: int, i: int)
    requires
        0 <= i <= n < s.len(),
        s[n] == '/',
        forall|j: int| i <= j < n ==> s[j] != '/',
    ensures
        index_from(s, '/', i) == n,
    decreases n - i,
{
    if i < n {
        lemma_first_slash(s, n, i + 1);
    }
}

/// "3/12" is the third of twelve: only what stands before the slash counts, and a
/// number without one counts as it is.
pub proof fn a_number_stands_before_the_slash(a: Seq<char>, b: Seq<char>)
    requires
        forall|i: int| 0 <= i < a.len() ==> a[i] != '/',
    ensures
        tag_number(a + seq!['/'] + b) == tag_number(a),
        tag_number(a) matches Some(n) ==> read_unsigned(trim(a), u32::MAX as nat) == Some(n as nat),
        tag_number(a) is None <==> read_unsigned(trim(a), u32::MAX as nat) is None,
{
    let s = a + seq!['/'] + b;
    lemma_no_slash(a, 0);
    assert forall|j: int| 0 <= j < a.len() implies s[j] != '/' by {
        assert(s[j] == a[j]);
    }
    lemma_first_slash(s, a.len() as int, 0);
    assert(s.subrange(0, a.len() as int) == a);
    assert(a.subrange(0, a.len() as int) == a);
}

/// What is told of a file is the codec that it holds: in an MP4 file, ALAC where
/// the samples have a depth and AAC where they have none.
pub proof fn codecs_have_their_names()
    ensures
        codec_text(FileKind::Mp4, true) == "ALAC"@,
        codec_text(FileKind::Mp4, false) == "AAC"@,
        forall|d: bool| #[trigger] codec_text(FileKind::Flac, d) == "FLAC"@,
        forall|d: bool| #[trigger] codec_text(FileKind::Mpeg, d) == "MP3"@,
        forall|d: bool| #[trigger] codec_text(FileKind::Wav, d) == "WAV"@,
        forall|d: bool| #[trigger] codec_text(FileKind::Vorbis, d) == "Vorbis"@,
        forall|d: bool| #[trigger] codec_text(FileKind::Opus, d) == "Opus"@,
        forall|d: bool| #[trigger] codec_text(FileKind::Aiff, d) == "AIFF"@,
{
}

/// A blank tag counts as not there.
pub proof fn a_blank_tag_is_none(s: Seq<char>)
    ensures
        trim(s).len() == 0 ==> tag_text(Some(s)) is None,
        trim(s).len() > 0 ==> tag_text(Some(s)) == Some(trim(s)),
        tag_text(None) is None,
{
}

proof fn lemma_dot(name: Seq<char>, n: int)
    requires
        0 <= n <= name.len(),
    ensures
        dot_in(name, n) matches Some(i) ==> 0 < i < n && name[i] == '.' && forall|j: int|
            i < j < n ==> name[j] != '.',
        dot_in(name, n) is None ==> forall|j: int| 0 < j < n ==> name[j] != '.',
    decreases n,
{
    if n > 1 && name[n - 1] != '.' {
        lemma_dot(name, n - 1);
    }
}

/// A name is its stem, a dot and its extension, which holds no dot; one that has
/// no dot behind its first character is all stem.
pub proof fn a_name_is_stem_and_extension(name: Seq<char>)
    ensures
        extension(name) matches Some(e) ==> name == stem(name) + seq!['.'] + e && stem(name).len()
            > 0 && forall|i: int| 0 <= i < e.len() ==> e[i] != '.',
        extension(name) is None ==> stem(name) == name && forall|i: int|
            0 < i < name.len() ==> name[i] != '.',
{
    lemma_dot(name, name.len() as int);
    if let Some(i) = dot_in(name, name.len() as int) {
        let e = name.subrange(i + 1, name.len() as int);
        assert(name == name.subrange(0, i) + seq!['.'] + e);
        assert forall|k: int| 0 <= k < e.len() implies e[k] != '.' by {
            assert(e[k] == name[i + 1 + k]);
        }
    }
}

/// Music is what has one of the extensions that can be played, in either case.
pub proof fn music_is_known_by_extension(name: Seq<char>, e: Seq<char>)
    requires
        extension(name) == Some(e),
    ensures
        supported(name) <==> lower_all(e) == "flac"@ || lower_all(e) == "wav"@ || lower_all(e)
            == "aiff"@ || lower_all(e) == "aif"@ || lower_all(e) == "aifc"@ || lower_all(e)
            == "mp3"@ || lower_all(e) == "ogg"@ || lower_all(e) == "oga"@ || lower_all(e) == "opus"@
            || lower_all(e) == "m4a"@ || lower_all(e) == "mp4"@ || lower_all(e) == "alac"@,
        is_image(name) <==> lower_all(e) == "jpg"@ || lower_all(e) == "jpeg"@ || lower_all(e)
            == "png"@ || lower_all(e) == "webp"@,
        is_cover_name(name) <==> lower_all(stem(name)) == "cover"@ || lower_all(stem(name))
            == "folder"@ || lower_all(stem(name)) == "front"@ || lower_all(stem(name)) == "album"@
            || lower_all(stem(name)) == "albumart"@ || lower_all(stem(name)) == "albumartsmall"@,
{
}

/// A file without an extension is neither music nor an image.
pub proof fn a_bare_name_is_no_music(name: Seq<char>)
    requires
        extension(name) is None,
    ensures
        !supported(name),
        !is_image(name),
{
}

/// A sound is high-resolution above 48 kHz or above sixteen bits.
pub proof fn high_resolution_is_above_the_disc(rate: u32, bits: u8)
    ensures
        hires(Some(rate), Some(bits)) <==> rate > 48_000 || bits > 16,
        hires(Some(rate), None) <==> rate > 48_000,
        hires(None, Some(bits)) <==> bits > 16,
        !hires(None, None),
{
}

// ---------------------------------------------------------------------------
// Scans
// ---------------------------------------------------------------------------

/// A file lies under a folder exactly where its path is that of the folder, or
/// goes on behind it with a slash.
pub proof fn a_file_lies_under_its_folder(path: Seq<char>, root: Seq<char>)
    requires
        root.len() > 0,
        root.last() != '/',
    ensures
        under(path, root) <==> path == root || (path.len() > root.len() && path.subrange(
            0,
            root.len() as int,
        ) == root && path[root.len() as int] == '/'),
{
    if path.len() == root.len() {
        assert(path.subrange(0, root.len() as int) == path);
    }
}

/// Positions that pass a test are listed, in ascending order, and no others.
pub proof fn positions_are_those_that_pass(n: nat, test: spec_fn(int) -> bool, i: int)
    requires
        n <= usize::MAX,
        0 <= i < n,
    ensures
        positions(n, test).contains(i as usize) <==> test(i),
        forall|k: int| 0 <= k < positions(n, test).len() ==> #[trigger] positions(n, test)[k] < n,
        forall|j: int, k: int|
            0 <= j < k < positions(n, test).len() ==> #[trigger] positions(n, test)[j]
                < #[trigger] positions(n, test)[k],
    decreases n,
{
    let m = (n - 1) as nat;
    let before = positions(m, test);
    if m > 0 {
        positions_are_those_that_pass(
            m,
            test,
            if i < m {
                i
            } else {
                0
            },
        );
    }
    let all = positions(n, test);
    if test(n - 1) {
        assert(all == before.push(m as usize));
        if i == n - 1 {
            assert(all.last() == i as usize);
            assert(all.contains(i as usize));
        } else {
            if before.contains(i as usize) {
                let k = choose|k: int| 0 <= k < before.len() && before[k] == i as usize;
                assert(all[k] == i as usize);
            }
            if all.contains(i as usize) {
                let k = choose|k: int| 0 <= k < all.len() && all[k] == i as usize;
                assert(k < before.len());
                assert(before[k] == i as usize);
            }
        }
    } else {
        assert(all == before);
        if i == n - 1 && all.contains(i as usize) {
            let k = choose|k: int| 0 <= k < all.len() && all[k] == i as usize;
            assert(all[k] < m);
        }
    }
}

/// A file is read again exactly where no known file has its path, size and time;
/// a known file goes exactly where it was not found and lies under a folder that
/// is there.
pub proof fn only_changes_are_read(
    known: Seq<Scanned>,
    found: Seq<Scanned>,
    live: Seq<String>,
    i: int,
    k: int,
)
    ensures
        todo_test(known, found)(i) <==> forall|j: int|
            0 <= j < known.len() ==> !(#[trigger] known[j].path@ == found[i].path@ && known[j].size
                == found[i].size && known[j].mtime == found[i].mtime),
        gone_test(known, found, live)(k) <==> (forall|j: int|
            0 <= j < found.len() ==> #[trigger] found[j].path@ != known[k].path@) && exists|r: int|
            0 <= r < live.len() && under(known[k].path@, #[trigger] live[r]@),
{
    let f = found[i]@;
    if todo_test(known, found)(i) {
        assert forall|j: int| 0 <= j < known.len() implies !(#[trigger] known[j].path@
            == found[i].path@ && known[j].size == found[i].size && known[j].mtime
            == found[i].mtime) by {
            assert(known[j]@ != f);
        }
    } else {
        let j = choose|j: int| 0 <= j < known.len() && #[trigger] known[j]@ == f;
        assert(known[j].path@ == found[i].path@);
    }
    let p = known[k]@.path;
    if forall|j: int| 0 <= j < found.len() ==> #[trigger] found[j].path@ != p {
        assert forall|j: int| 0 <= j < found.len() implies #[trigger] found[j]@.path != p by {
            assert(found[j].path@ != p);
        }
    } else {
        let j = choose|j: int| 0 <= j < found.len() && #[trigger] found[j].path@ == p;
        assert(found[j]@.path == p);
    }
}

/// A folder that is watched is scanned when nothing has happened for two seconds.
pub proof fn a_watched_folder_settles()
    ensures
        crate::library::watch::SETTLE_MS == 2000,
{
}

// ---------------------------------------------------------------------------
// Albums
// ---------------------------------------------------------------------------

/// Without an album artist an album is that of its folder; with one it is told by
/// its name and its artist alone.
pub proof fn an_album_is_told_by_its_artist(
    album: Seq<char>,
    by: Seq<char>,
    dir: Seq<char>,
    other: Seq<char>,
)
    ensures
        album.len() > 0 ==> identity(album, Some(by), dir) == identity(album, Some(by), other),
        album.len() > 0 ==> identity(album, Some(by), dir) == album + "\u{1f}"@ + by,
        dir != other ==> identity(album, None, dir) != identity(album, None, other),
        identity(Seq::empty(), Some(by), dir) == identity(Seq::empty(), None, dir),
{
    if identity(album, None, dir) == identity(album, None, other) {
        let head = album + "\u{1f}dir:"@;
        assert((head + dir).subrange(head.len() as int, (head + dir).len() as int) == dir);
        assert((head + other).subrange(head.len() as int, (head + other).len() as int) == other);
    }
}

/// The hash of an id takes in each byte before it multiplies, from the first to
/// the last.
pub proof fn the_hash_takes_in_each_byte(b: Seq<u8>, x: u8)
    ensures
        fnv_bytes(Seq::empty()) == 0xcbf29ce484222325,
        fnv_bytes(b.push(x)) == (fnv_bytes(b) ^ (x as u64)).wrapping_mul(0x100000001b3),
{
    assert(b.push(x).drop_last() == b);
    assert(b.push(x).last() == x);
}

/// An id has as many digits as asked for, the last of them the lowest.
pub proof fn an_id_is_in_hexadecimal(h: nat, n: nat)
    ensures
        hex_digits(h, n).len() == n,
        n > 0 && h % 16 < 10 ==> hex_digits(h, n).last() == ('0' as u32 + h % 16) as char,
        n > 0 && h % 16 >= 10 ==> hex_digits(h, n).last() == ('a' as u32 + h % 16 - 10) as char,
        n > 0 ==> hex_digits(h, n).drop_last() == hex_digits(h / 16, (n - 1) as nat),
    decreases n,
{
    if n > 0 {
        an_id_is_in_hexadecimal(h / 16, (n - 1) as nat);
        assert(hex_digits(h, n).drop_last() == hex_digits(h / 16, (n - 1) as nat));
    }
}

/// Albums and tracks come in the order that is asked for.
pub proof fn lists_come_in_their_order()
    ensures
        AlbumSort::Title.clause() == "MAX(t.album) COLLATE NOCASE"@,
        AlbumSort::YearDesc.clause() == "MIN(t.year) DESC, MAX(t.album) COLLATE NOCASE"@,
        AlbumSort::RecentlyAdded.clause() == "MIN(t.added_at) DESC, MAX(t.album) COLLATE NOCASE"@,
        AlbumSort::Artist.clause()
            == "COALESCE(MAX(t.album_artist), MAX(t.artist)) COLLATE NOCASE, MIN(t.year), MAX(t.album) COLLATE NOCASE"@,
        TrackSort::Title.clause() == "t.title COLLATE NOCASE"@,
        TrackSort::Album.clause()
            == "t.album COLLATE NOCASE, COALESCE(t.disc,1), COALESCE(t.track,0)"@,
        TrackSort::Duration.clause() == "t.duration_ms DESC"@,
        TrackSort::RecentlyAdded.clause() == "t.added_at DESC, t.path"@,
        TrackSort::MostPlayed.clause()
            == "COALESCE(s.play_count,0) DESC, t.title COLLATE NOCASE"@,
        TrackSort::Artist.clause()
            == "COALESCE(t.album_artist, t.artist) COLLATE NOCASE, t.year, t.album_id, COALESCE(t.disc,1), COALESCE(t.track,0)"@,
{
}

// ---------------------------------------------------------------------------
// Search
// ---------------------------------------------------------------------------

/// Each word of a search may be the beginning of a longer one, and is taken
/// literally.
pub proof fn each_word_is_a_prefix(terms: Seq<Seq<char>>, i: int)
    requires
        0 <= i < terms.len(),
    ensures
        quoted(terms).len() == terms.len(),
        quoted(terms)[i] == "\""@ + terms[i] + "\"*"@,
{
}

/// The words of a search hold letters, digits and apostrophes only, and none is
/// empty.
pub proof fn words_are_searched_without_signs(q: Seq<char>, n: nat)
    requires
        n <= q.len(),
    ensures
        ({
            let (done, word) = terms_to(q, n);
            &&& forall|i: int| 0 <= i < done.len() ==> (#[trigger] done[i]).len() > 0
            &&& forall|i: int, j: int|
                0 <= i < done.len() && 0 <= j < done[i].len() ==> crate::text::alphanumeric(
                    #[trigger] done[i][j],
                ) || done[i][j] == '\''
            &&& forall|j: int|
                0 <= j < word.len() ==> crate::text::alphanumeric(#[trigger] word[j]) || word[j]
                    == '\''
        }),
    decreases n,
{
    if n > 0 {
        words_are_searched_without_signs(q, (n - 1) as nat);
        let (done, word) = terms_to(q, (n - 1) as nat);
        let (done2, word2) = terms_to(q, n);
        assert forall|i: int, j: int| 0 <= i < done2.len() && 0 <= j < done2[i].len() implies
            crate::text::alphanumeric(#[trigger] done2[i][j]) || done2[i][j] == '\'' by {
            if i < done.len() {
                assert(done2[i] == done[i]);
            } else {
                assert(done2[i] == word);
            }
        }
    }
}

/// Of the artists those are shown that were asked for, whatever their case, in the
/// order in which they were asked for.
pub proof fn artists_come_as_asked_for(
    artists: Seq<Artist>,
    names: Seq<Seq<char>>,
    n: nat,
    a: Artist,
    b: Artist,
)
    requires
        0 < n <= artists.len(),
    ensures
        wanted(names, artists[n - 1].name@) ==> wanted_artists(artists, names, n) == wanted_artists(
            artists,
            names,
            (n - 1) as nat,
        ).push(artists[n - 1]),
        !wanted(names, artists[n - 1].name@) ==> wanted_artists(artists, names, n)
            == wanted_artists(artists, names, (n - 1) as nat),
        artist_order(names)(a, b) <==> name_rank(names, a.name@, 0) <= name_rank(
            names,
            b.name@,
            0,
        ),
{
}

/// The rank of a name is where it stands among those asked for, and behind them
/// all where it does not.
pub proof fn a_name_has_its_rank(names: Seq<Seq<char>>, name: Seq<char>, i: int)
    requires
        0 <= i <= names.len(),
    ensures
        ({
            let k = name_rank(names, name, i);
            &&& i <= k <= names.len()
            &&& k < names.len() ==> lower_all(names[k]) == lower_all(name)
            &&& forall|j: int| i <= j < k ==> lower_all(#[trigger] names[j]) != lower_all(name)
        }),
    decreases names.len() - i,
{
    if i < names.len() && lower_all(names[i]) != lower_all(name) {
        a_name_has_its_rank(names, name, i + 1);
    }
}

/// Albums come in the order of the ids that were asked for, each once, and those
/// that are not there are left out.
pub proof fn albums_come_as_asked_for(ids: Seq<Seq<char>>, found: Seq<Seq<char>>, n: nat)
    requires
        0 < n <= ids.len(),
    ensures
        ({
            let before = in_id_order(ids, found, (n - 1) as nat);
            match position_from(found, ids[n - 1], 0) {
                Some(i) => if before.contains(i as usize) {
                    in_id_order(ids, found, n) == before
                } else {
                    in_id_order(ids, found, n) == before.push(i as usize)
                },
                None => in_id_order(ids, found, n) == before,
            }
        }),
{
}

/// A text is found where it first stands in a list.
pub proof fn a_text_is_found_first(list: Seq<Seq<char>>, p: Seq<char>, i: int)
    requires
        0 <= i <= list.len(),
    ensures
        position_from(list, p, i) matches Some(k) ==> i <= k < list.len() && list[k] == p && forall|
            j: int,
        |
            i <= j < k ==> #[trigger] list[j] != p,
        position_from(list, p, i) is None ==> forall|j: int|
            i <= j < list.len() ==> #[trigger] list[j] != p,
    decreases list.len() - i,
{
    if i < list.len() && list[i] != p {
        a_text_is_found_first(list, p, i + 1);
    }
}

// ---------------------------------------------------------------------------
// Playlists and covers
// ---------------------------------------------------------------------------

/// An exported playlist is a header and, for each track, a line with its length
/// in seconds, its artist and its title, and a line with its path.
pub proof fn a_playlist_is_written_line_by_line(entries: Seq<M3uEntry>, n: nat, artist: String)
    requires
        0 < n <= entries.len(),
        entries[n - 1].artist == Some(artist),
    ensures
        m3u_text(entries, 0) == "#EXTM3U\n"@,
        m3u_text(entries, n) == m3u_text(entries, (n - 1) as nat) + ("#EXTINF:"@ + dec(
            (entries[n - 1].duration_ms / 1000) as nat,
        ) + ","@ + artist@ + " - "@ + entries[n - 1].title@ + "\n"@ + entries[n - 1].path@ + "\n"@),
{
    assert(m3u_text(entries, n) == m3u_text(entries, (n - 1) as nat) + entry_text(entries[n - 1]));
}

/// In an imported playlist comments and blank lines are skipped; a path stands for
/// itself where it is absolute, and else for one in the folder of the playlist.
pub proof fn a_playlist_is_read_line_by_line(line: Seq<char>, base: Seq<char>)
    ensures
        trim(line).len() == 0 ==> m3u_line(line, base) is None,
        trim(line).len() > 0 && trim(line)[0] == '#' ==> m3u_line(line, base) is None,
        trim(line).len() > 0 && trim(line)[0] == '/' && path_of(trim(line)) is None ==> m3u_line(
            line,
            base,
        ) == Some(trim(line)),
        trim(line).len() > 0 && trim(line)[0] != '#' && trim(line)[0] != '/' && path_of(trim(line))
            is None ==> m3u_line(line, base) == Some(joined(base, trim(line))),
        trim(line).len() > 0 && trim(line)[0] != '#' ==> (path_of(trim(line)) matches Some(p)
            ==> (p.len() > 0 && p[0] == '/' ==> m3u_line(line, base) == Some(p))),
{
}

/// The thumbnail of a key in any size is one of its thumbnails.
pub proof fn thumbnails_are_known_by_key(key: Seq<char>, size: u32)
    ensures
        is_thumb_of(thumb_name(key, size), key),
        thumb_name(key, size) == sanitized(key) + "-"@ + dec(size as nat) + ".jpg"@,
{
    let name = thumb_name(key, size);
    let head = sanitized(key) + "-"@;
    assert(name.subrange(0, head.len() as int) == head);
    assert(name.subrange(name.len() - ".jpg"@.len(), name.len() as int) == ".jpg"@);
}

/// A cover that is larger than its place is scaled down, one that fits is not.
pub proof fn only_large_covers_are_scaled(bytes: Seq<u8>, size: u32, w: u32, h: u32)
    requires
        image_size(bytes) == Some((w, h)),
    ensures
        w <= size && h <= size ==> thumbnail_of(bytes, size) == jpeg_image(bytes, 90),
        w > size || h > size ==> thumbnail_of(bytes, size) == jpeg_image_within(
            bytes,
            size,
            Filter::CatmullRom,
            90,
        ),
        w <= size && h <= size ==> pixels_for(bytes, size) == rgba_image(bytes),
{
}

/// A file without tags has none, and no length.
pub proof fn no_tags_are_no_tags()
    ensures
        no_tags().artist is None && no_tags().album is None && no_tags().album_artist is None,
        no_tags().duration_ms == 0,
        no_tags().track is None && no_tags().disc is None && no_tags().year is None,
        no_tags().rg_track_gain is None && no_tags().rg_album_gain is None,
{
}

/// The cover of a folder is an image with the name of a cover.
pub proof fn a_cover_is_an_image(name: Seq<char>)
    ensures
        cover_test()(name) <==> is_image(name) && is_cover_name(name),
        image_test()(name) <==> is_image(name),
{
}

/// A file that was found twice counts once.
pub proof fn each_path_counts_once(files: Seq<Scanned>, n: nat, i: int)
    requires
        n <= files.len(),
    ensures
        distinct_paths(files, n).no_duplicates(),
        0 <= i < n ==> distinct_paths(files, n).contains(files[i]@.path),
        forall|k: int|
            0 <= k < distinct_paths(files, n).len() ==> exists|j: int|
                0 <= j < n && files[j]@.path == #[trigger] distinct_paths(files, n)[k],
    decreases n,
{
    if n > 0 {
        let before = distinct_paths(files, (n - 1) as nat);
        let all = distinct_paths(files, n);
        each_path_counts_once(files, (n - 1) as nat, i);
        if 0 <= i < n - 1 {
            let k = choose|k: int| 0 <= k < before.len() && before[k] == files[i]@.path;
            assert(all[k] == files[i]@.path);
        }
        if !before.contains(files[n - 1]@.path) {
            assert(all.last() == files[n - 1]@.path);
        }
        assert forall|k: int| 0 <= k < all.len() implies exists|j: int|
            0 <= j < n && files[j]@.path == #[trigger] all[k] by {
            if k < before.len() {
                assert(all[k] == before[k]);
                let j = choose|j: int| 0 <= j < n - 1 && files[j]@.path == before[k];
                assert(files[j]@.path == all[k]);
            } else {
                assert(files[n - 1]@.path == all[k]);
            }
        }
    }
}

/// The last word of a search counts as well, though nothing stands behind it.
pub proof fn the_last_word_counts(q: Seq<char>)
    ensures
        ({
            let (done, word) = terms_to(q, q.len());
            &&& word.len() > 0 ==> terms(q) == done.push(word)
            &&& word.len() == 0 ==> terms(q) == done
        }),
{
}

/// A search is cut into words at everything that belongs to none.
pub proof fn a_search_is_cut_into_words(q: Seq<char>, n: nat)
    requires
        0 < n <= q.len(),
    ensures
        ({
            let (done, word) = terms_to(q, (n - 1) as nat);
            let c = q[n - 1];
            if crate::text::alphanumeric(c) || c == '\'' {
                terms_to(q, n) == (done, word.push(c))
            } else if word.len() > 0 {
                terms_to(q, n) == (done.push(word), Seq::<char>::empty())
            } else {
                terms_to(q, n) == (done, word)
            }
        }),
{
}

/// An artist is wanted whose name is one of those asked for, whatever its case.
pub proof fn a_wanted_artist_was_asked_for(names: Seq<Seq<char>>, name: Seq<char>)
    ensures
        wanted(names, name) <==> exists|i: int|
            0 <= i < names.len() && crate::text::lowercase(#[trigger] names[i])
                == crate::text::lowercase(name),
{
}

/// In the name of a file letters and digits stay, and everything else becomes an
/// underscore.
pub proof fn letters_and_digits_stay(key: Seq<char>, i: int)
    requires
        0 <= i < key.len(),
    ensures
        sanitary(key[i]) <==> ('0' <= key[i] <= '9') || ('A' <= key[i] <= 'Z') || ('a' <= key[i]
            <= 'z'),
        sanitary(key[i]) ==> sanitized(key)[i] == key[i],
        !sanitary(key[i]) ==> sanitized(key)[i] == '_',
        sanitized(key).len() == key.len(),
{
}

/// A playlist is read line by line, in its order.
pub proof fn the_lines_of_a_playlist_keep_their_order(
    lines: Seq<Seq<char>>,
    base: Seq<char>,
    n: nat,
)
    requires
        0 < n <= lines.len(),
    ensures
        crate::library::playlists::m3u_paths(lines, base, 0).len() == 0,
        m3u_line(lines[n - 1], base) matches Some(p) ==> crate::library::playlists::m3u_paths(
            lines,
            base,
            n,
        ) == crate::library::playlists::m3u_paths(lines, base, (n - 1) as nat).push(p),
        m3u_line(lines[n - 1], base) is None ==> crate::library::playlists::m3u_paths(
            lines,
            base,
            n,
        ) == crate::library::playlists::m3u_paths(lines, base, (n - 1) as nat),
{
}

/// The other kinds of files have their names as well.
pub proof fn other_codecs_have_their_names(d: bool)
    ensures
        codec_text(FileKind::Ape, d) == "APE"@,
        codec_text(FileKind::WavPack, d) == "WavPack"@,
        codec_text(FileKind::Speex, d) == "Speex"@,
        codec_text(FileKind::Other, d) == "?"@,
{
}

/// A thumbnail of a key begins with it and ends as an image does.
pub proof fn only_thumbnails_are_thumbnails(name: Seq<char>, key: Seq<char>)
    requires
        is_thumb_of(name, key),
    ensures
        starts_with(name, sanitized(key) + "-"@),
        crate::text::ends_with(name, ".jpg"@),
{
}

/// The unit of a gain is letters and white space at its end.
pub proof fn a_gain_is_read_without_its_unit(s: Seq<char>, c: char)
    ensures
        ('a' <= c <= 'z') || ('A' <= c <= 'Z') || c == ' ' ==> without_unit(s.push(c))
            == without_unit(s),
        ('0' <= c <= '9') ==> without_unit(s.push(c)) == s.push(c),
{
    assert(s.push(c).drop_last() == s);
    assert(s.push(c).last() == c);
}

/// An album without a title is called after its folder, and without either it is
/// unknown.
pub proof fn an_album_has_a_title(album: String, dir: String, a: String, b: String, c: String)
    requires
        call_ensures(crate::library::tracks::album_title, (Some(album), Some(dir)), a),
        call_ensures(crate::library::tracks::album_title, (None, Some(dir)), b),
        call_ensures(crate::library::tracks::album_title, (None, None), c),
    ensures
        album@.len() > 0 ==> a@ == album@,
        album@.len() == 0 ==> a@ == dir@,
        b@ == dir@,
        c@ == "Unknown album"@,
{
}

/// An album without an album artist is that of its artist, and with several it is
/// various artists'.
pub proof fn an_album_has_an_artist(by: String, artist: String, n: u32, a: String, b: String, c: String)
    requires
        call_ensures(
            crate::library::tracks::album_artist_name,
            (Some(by), Some(artist), n),
            a,
        ),
        call_ensures(crate::library::tracks::album_artist_name, (None, Some(artist), n), b),
        call_ensures(crate::library::tracks::album_artist_name, (None, None, n), c),
    ensures
        a@ == by@,
        n > 1 ==> b@ == "Various Artists"@ && c@ == "Various Artists"@,
        n <= 1 ==> b@ == artist@ && c@ == "Unknown artist"@,
{
}

/// A file that comes, changes or goes leads to a scan; anything else does not.
pub proof fn changes_lead_to_a_scan(
    e: crate::library::watch::WatchEvent,
    s: crate::library::watch::WatchStep,
)
    requires
        call_ensures(crate::library::watch::watch_step, (e,), s),
    ensures
        s is Scan <==> (e matches crate::library::watch::WatchEvent::Changed(c) && (c is Create
            || c is Modify || c is Remove)),
        s is Stop <==> e is Gone,
{
}

/// The front cover is taken where there is one, else one that is declared, else
/// the first picture.
pub proof fn the_front_cover_is_taken(
    kinds: &[crate::library::meta::PictureKind],
    i: usize,
    r: Option<usize>,
)
    requires
        call_ensures(crate::library::meta::front_picture, (kinds,), r),
        i < kinds@.len(),
    ensures
        kinds@[i as int] == crate::library::meta::PictureKind::CoverFront ==> (r matches Some(k)
            && k <= i && kinds@[k as int] == crate::library::meta::PictureKind::CoverFront),
        r is Some,
{
    if kinds@[i as int] == crate::library::meta::PictureKind::CoverFront {
        assert(kinds@.contains(crate::library::meta::PictureKind::CoverFront));
    }
}

/// Lyrics beside the file come before those in it.
pub proof fn lyrics_beside_the_file_come_first(
    beside: String,
    inside: String,
    other: Option<String>,
    r: Option<String>,
    q: Option<String>,
)
    requires
        call_ensures(crate::library::meta::local_lyrics, (Some(beside), Some(inside), other), r),
        call_ensures(crate::library::meta::local_lyrics, (None, Some(inside), other), q),
    ensures
        trim(beside@).len() > 0 ==> text_opt(r) == Some(beside@),
        trim(beside@).len() == 0 ==> text_opt(r) == text_opt(q),
        trim(inside@).len() > 0 ==> text_opt(q) == Some(trim(inside@)),
{
}

/// A folder of a disc is called so, in either case.
pub proof fn discs_are_known_by_their_folder(name: &str, r: bool)
    requires
        call_ensures(crate::library::meta::is_disc_dir, (name,), r),
    ensures
        r <==> starts_with(lower_all(name@), "cd"@) || starts_with(lower_all(name@), "disc"@)
            || starts_with(lower_all(name@), "disk"@),
{
}

} // verus!
