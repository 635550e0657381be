//! On-disk lyrics cache: one file per track, including negative results.

use vstd::prelude::*;
use vstd::utf8::encode_utf8;

use crate::config::str_opt;
use crate::online::digest::{hex, md5_digest, md5_hex};
use crate::online::error::OnlineError;
use crate::online::lyrics::Lyrics;
use crate::paths::{join_path, joined};
use crate::text::{
    bytes_of, concat2, copy_str, dec, join, join_strings, lowercase, push_dec, split_words,
    to_lowercase, words,
};

verus! {

/// "Not found" entries are trusted for 7 days, then retried: LRCLIB is
/// crowd-sourced and gains lyrics over time.
pub const NEGATIVE_TTL_SECS: i64 = 604800;

#[derive(Debug, Clone)]
pub enum CacheLookup {
    Hit(Lyrics),
    /// A recent lookup found nothing; don't ask again yet.
    KnownMissing,
    /// Never looked up, or the negative entry expired.
    Miss,
}

/// What a cache file holds.
#[derive(Debug)]
pub struct Entry {
    pub fetched_at_unix: i64,
    pub lyrics: Option<Lyrics>,
}

#[derive(Debug, Clone)]
pub struct LyricsCache {
    dir: String,
}

/// A name as entries are told apart by it: its words with one space between
/// them.
pub open spec fn spaced(s: Seq<char>) -> Seq<char> {
    join(words(s), " "@)
}

/// A normalized name: case and white space differences do not matter. One
/// without words is empty.
pub open spec fn norm_name(s: Seq<char>) -> Seq<char> {
    if words(s).len() == 0 {
        Seq::empty()
    } else {
        lowercase(spaced(s))
    }
}

/// `artist|title|album|duration`.
pub open spec fn raw_key(
    artist: Seq<char>,
    title: Seq<char>,
    album: Seq<char>,
    duration_s: Option<u32>,
) -> Seq<char> {
    artist + "|"@ + title + "|"@ + album + "|"@ + (match duration_s {
        Some(d) => dec(d as nat),
        None => Seq::empty(),
    })
}

/// The key of an entry.
pub open spec fn entry_key(
    artist: Seq<char>,
    title: Seq<char>,
    album: Option<Seq<char>>,
    duration_s: Option<u32>,
) -> Seq<char> {
    hex(
        md5_digest(
            encode_utf8(
                raw_key(
                    norm_name(artist),
                    norm_name(title),
                    match album {
                        Some(a) => norm_name(a),
                        None => Seq::empty(),
                    },
                    duration_s,
                ),
            ),
        ),
    )
}

/// What an entry says at a time.
pub open spec fn looked_up(entry: Option<Entry>, now: i64) -> CacheLookup {
    match entry {
        Some(e) => match e.lyrics {
            Some(l) => CacheLookup::Hit(l),
            None => if now - e.fetched_at_unix < NEGATIVE_TTL_SECS {
                CacheLookup::KnownMissing
            } else {
                CacheLookup::Miss
            },
        },
        None => CacheLookup::Miss,
    }
}

/// The file of an entry in a directory.
pub open spec fn file_of(dir: Seq<char>, key: Seq<char>) -> Seq<char> {
    joined(dir, key + ".json"@)
}

/// What the cache of a directory says of a key, where `files` are the entries
/// on disk, by their paths.
pub open spec fn looked_up_in(
    files: Map<Seq<char>, Entry>,
    dir: Seq<char>,
    key: Seq<char>,
    now: i64,
) -> CacheLookup {
    looked_up(
        if files.dom().contains(file_of(dir, key)) {
            Some(files[file_of(dir, key)])
        } else {
            None
        },
        now,
    )
}

/// The files once the entry of a key has been written.
pub open spec fn stored_in(
    files: Map<Seq<char>, Entry>,
    dir: Seq<char>,
    key: Seq<char>,
    entry: Entry,
) -> Map<Seq<char>, Entry> {
    files.insert(file_of(dir, key), entry)
}

/// The entry that an answer leaves: one for what was found and one for what was
/// not, none for a failure.
pub open spec fn entry_for(reply: Result<Option<Lyrics>, OnlineError>, now: i64) -> Option<Entry> {
    match reply {
        Ok(lyrics) => Some(Entry { fetched_at_unix: now, lyrics }),
        Err(_) => None,
    }
}

/// What a cached lookup answers, where `reply` is what asking would.
pub open spec fn fetched(
    c: CacheLookup,
    reply: Result<Option<Lyrics>, OnlineError>,
) -> Result<Option<Lyrics>, OnlineError> {
    match step_for(c) {
        FetchStep::Known(l) => Ok(l),
        FetchStep::Ask => reply,
    }
}

/// The files after a cached lookup.
pub open spec fn files_after(
    files: Map<Seq<char>, Entry>,
    dir: Seq<char>,
    key: Seq<char>,
    reply: Result<Option<Lyrics>, OnlineError>,
    now: i64,
) -> Map<Seq<char>, Entry> {
    match (step_for(looked_up_in(files, dir, key, now)), entry_for(reply, now)) {
        (FetchStep::Ask, Some(e)) => stored_in(files, dir, key, e),
        _ => files,
    }
}

/// The entries of two keys lie in two files.
proof fn lemma_files_differ(dir: Seq<char>, a: Seq<char>, b: Seq<char>)
    ensures
        file_of(dir, a) == file_of(dir, b) ==> a == b,
{
    let x = a + ".json"@;
    let y = b + ".json"@;
    let base = if dir.len() == 0 || dir.last() == '/' {
        dir
    } else {
        dir + "/"@
    };
    assert(dir.len() == 0 ==> dir + x == x && dir + y == y);
    assert(file_of(dir, a) == base + x && file_of(dir, b) == base + y);
    if file_of(dir, a) == file_of(dir, b) {
        assert(x == (base + x).subrange(base.len() as int, (base + x).len() as int));
        assert(y == (base + y).subrange(base.len() as int, (base + y).len() as int));
        assert(a == x.subrange(0, x.len() - ".json"@.len()));
        assert(b == y.subrange(0, y.len() - ".json"@.len()));
    }
}

/// What is stored for a key is what is looked up, until it is stored anew: found
/// lyrics at any later time, a miss at once, also where lyrics had been stored.
/// Other keys keep what they had.
pub proof fn a_store_is_looked_up(
    files: Map<Seq<char>, Entry>,
    dir: Seq<char>,
    key: Seq<char>,
    other: Seq<char>,
    lyrics: Option<Lyrics>,
    now: i64,
    later: i64,
)
    requires
        key != other,
    ensures
        ({
            let after = stored_in(files, dir, key, Entry { fetched_at_unix: now, lyrics });
            &&& lyrics matches Some(l) ==> looked_up_in(after, dir, key, later)
                == CacheLookup::Hit(l)
            &&& lyrics is None ==> looked_up_in(after, dir, key, now) is KnownMissing
            &&& looked_up_in(after, dir, other, later) == looked_up_in(files, dir, other, later)
        }),
{
    lemma_files_differ(dir, key, other);
}

/// A cached lookup asks only about what the cache does not know. It answers
/// what is known or what the asking gave, keeps found lyrics and misses for the
/// next lookup, and leaves the cache alone where the asking failed.
pub proof fn a_fetch_is_remembered(
    files: Map<Seq<char>, Entry>,
    dir: Seq<char>,
    key: Seq<char>,
    reply: Result<Option<Lyrics>, OnlineError>,
    now: i64,
    later: i64,
)
    ensures
        ({
            let c = looked_up_in(files, dir, key, now);
            let after = files_after(files, dir, key, reply, now);
            match c {
                CacheLookup::Hit(l) => {
                    &&& !(step_for(c) is Ask)
                    &&& fetched(c, reply) == Ok::<Option<Lyrics>, OnlineError>(Some(l))
                    &&& after == files
                },
                CacheLookup::KnownMissing => {
                    &&& !(step_for(c) is Ask)
                    &&& fetched(c, reply) == Ok::<Option<Lyrics>, OnlineError>(None)
                    &&& after == files
                },
                CacheLookup::Miss => {
                    &&& step_for(c) is Ask
                    &&& fetched(c, reply) == reply
                    &&& match reply {
                        Ok(Some(l)) => looked_up_in(after, dir, key, later) == CacheLookup::Hit(l),
                        Ok(None) => looked_up_in(after, dir, key, now) is KnownMissing,
                        Err(_) => after == files,
                    }
                },
            }
        }),
{
}

/// Lyrics that were found are found again, however much later; a miss is
/// trusted until its time is over, and asked about again after that.
pub proof fn cached_results_last(l: Lyrics, stored_at: i64, now: i64)
    ensures
        looked_up(Some(Entry { fetched_at_unix: stored_at, lyrics: Some(l) }), now)
            == CacheLookup::Hit(l),
        looked_up(Some(Entry { fetched_at_unix: stored_at, lyrics: None }), now)
            is KnownMissing <==> now < stored_at + NEGATIVE_TTL_SECS,
        looked_up(Some(Entry { fetched_at_unix: stored_at, lyrics: None }), now) is Miss
            <==> now >= stored_at + NEGATIVE_TTL_SECS,
{
}

/// Names of the same words have the same entry: white space around and between
/// them does not matter, and neither does what lower case makes equal.
pub proof fn spacing_does_not_matter(
    artist: Seq<char>,
    other: Seq<char>,
    title: Seq<char>,
    album: Option<Seq<char>>,
    duration_s: Option<u32>,
)
    requires
        words(artist) == words(other) || (words(artist).len() > 0 && words(other).len() > 0
            && lowercase(spaced(artist)) == lowercase(spaced(other))),
    ensures
        entry_key(artist, title, album, duration_s) == entry_key(other, title, album, duration_s),
        entry_key(title, artist, album, duration_s) == entry_key(title, other, album, duration_s),
        entry_key(title, title, Some(artist), duration_s) == entry_key(
            title,
            title,
            Some(other),
            duration_s,
        ),
{
}

/// An album without words is no album: the key is the same.
pub proof fn a_blank_album_is_none(
    artist: Seq<char>,
    title: Seq<char>,
    album: Seq<char>,
    duration_s: Option<u32>,
)
    requires
        words(album).len() == 0,
    ensures
        entry_key(artist, title, Some(album), duration_s) == entry_key(
            artist,
            title,
            None,
            duration_s,
        ),
{
}

fn norm(s: &str) -> (r: String)
    ensures
        r@ == norm_name(s@),
{
    let w = split_words(s);
    if w.len() == 0 {
        return String::new();
    }
    to_lowercase(join_strings(&w, " ").as_str())
}

/// The text that a key is the digest of, from normalized names.
pub fn key_text(artist: &str, title: &str, album: &str, duration_s: Option<u32>) -> (r: String)
    ensures
        r@ == raw_key(artist@, title@, album@, duration_s),
{
    let mut s = copy_str(artist);
    s.push_str("|");
    s.push_str(title);
    s.push_str("|");
    s.push_str(album);
    s.push_str("|");
    let ghost head = s@;
    assert(head + Seq::<char>::empty() == head);
    if let Some(d) = duration_s {
        push_dec(&mut s, d as u64);
    }
    s
}

impl LyricsCache {
    /// The directory of the cache.
    pub closed spec fn directory(&self) -> Seq<char> {
        self.dir@
    }

    pub fn new(dir: String) -> (c: LyricsCache)
        ensures
            c.directory() == dir@,
    {
        LyricsCache { dir }
    }

    pub fn dir(&self) -> (d: &str)
        ensures
            d@ == self.directory(),
    {
        self.dir.as_str()
    }

    /// Stable key (md5 hex) over normalized `artist|title|album|duration`;
    /// case and whitespace differences map to the same entry.
    pub fn key(artist: &str, title: &str, album: Option<&str>, duration_s: Option<u32>) -> (k: String)
        ensures
            k@ == entry_key(artist@, title@, str_opt(album), duration_s),
            k@.len() == 32,
    {
        let a = norm(artist);
        let t = norm(title);
        let al = match album {
            Some(x) => norm(x),
            None => String::new(),
        };
        let raw = key_text(a.as_str(), t.as_str(), al.as_str(), duration_s);
        md5_hex(&bytes_of(raw.as_str()))
    }

    /// The file of an entry.
    pub fn path(&self, key: &str) -> (p: String)
        ensures
            p@ == file_of(self.directory(), key@),
    {
        join_path(self.dir.as_str(), concat2(key, ".json").as_str())
    }

    /// What an entry says at a time: found lyrics stay, a recent miss is
    /// trusted. No file, or one that cannot be read, says nothing.
    pub fn lookup(entry: Option<Entry>, now: i64) -> (r: CacheLookup)
        ensures
            r == looked_up(entry, now),
    {
        match entry {
            Some(e) => match e.lyrics {
                Some(l) => CacheLookup::Hit(l),
                None => if (now as i128) - (e.fetched_at_unix as i128) < NEGATIVE_TTL_SECS as i128 {
                    CacheLookup::KnownMissing
                } else {
                    CacheLookup::Miss
                },
            },
            None => CacheLookup::Miss,
        }
    }

    /// The entry that records a result; none caches a miss.
    pub fn store(lyrics: Option<Lyrics>, now: i64) -> (e: Entry)
        ensures
            e == (Entry { fetched_at_unix: now, lyrics }),
    {
        Entry { fetched_at_unix: now, lyrics }
    }

    /// The entry to store for an answer; a failure is not cached.
    pub fn entry_of(reply: Result<Option<Lyrics>, OnlineError>, now: i64) -> (e: Option<Entry>)
        ensures
            e == entry_for(reply, now),
            e is Some <==> reply is Ok,
    {
        match reply {
            Ok(lyrics) => Some(LyricsCache::store(lyrics, now)),
            Err(_) => None,
        }
    }
}

/// What a cached lookup leads to.
#[derive(Debug)]
pub enum FetchStep {
    /// The answer, without asking.
    Known(Option<Lyrics>),
    /// Ask, and cache what comes back.
    Ask,
}

/// What a lookup leads to.
pub open spec fn step_for(lookup: CacheLookup) -> FetchStep {
    match lookup {
        CacheLookup::Hit(l) => FetchStep::Known(Some(l)),
        CacheLookup::KnownMissing => FetchStep::Known(None),
        CacheLookup::Miss => FetchStep::Ask,
    }
}

/// Looks lyrics up in the cache, falling back to LRCLIB and caching the result
/// (including "not found"). Network errors are returned and not cached.
pub fn fetch_cached(lookup: CacheLookup) -> (s: FetchStep)
    ensures
        s == step_for(lookup),
{
    match lookup {
        CacheLookup::Hit(l) => FetchStep::Known(Some(l)),
        CacheLookup::KnownMissing => FetchStep::Known(None),
        CacheLookup::Miss => FetchStep::Ask,
    }
}

} // verus!
