//! Missing album art: MusicBrainz release search, then the Cover Art Archive.
//!
//! MusicBrainz allows at most one request per second per client; every call to
//! it goes through [`musicbrainz_limiter`]. The Cover Art Archive has no such
//! limit.

use vstd::prelude::*;

use crate::online::error::OnlineError;
use crate::online::http::{asks, is_not_found, param, plain_request, ParamView, Request};
use crate::text::{
    chars_of, concat2, copy_str, dec, push_dec, push_text, text_opt, texts, trim, trim_of,
};

verus! {

pub const MUSICBRAINZ_API: &'static str = "https://musicbrainz.org/ws/2";

pub const COVER_ART_ARCHIVE: &'static str = "https://coverartarchive.org";

/// Search results scoring below this are too uncertain to use.
pub const MIN_SCORE: u32 = 90;

/// Largest image we accept; "1200" thumbnails are far smaller.
pub const MAX_IMAGE_BYTES: u64 = 20 * 1024 * 1024;

#[derive(Debug, Clone, PartialEq, Eq)]
pub struct ReleaseRef {
    pub mbid: String,
    pub release_group_mbid: Option<String>,
    pub title: String,
    /// Credited artist as displayed (join phrases included).
    pub artist: String,
    pub date: Option<String>,
}

/// Cover Art Archive thumbnail sizes (longest edge, pixels).
#[derive(Debug, Clone, Copy, PartialEq, Eq, Structural)]
pub enum CoverSize {
    S250,
    S500,
    S1200,
}

impl CoverSize {
    /// The number that `pixels` returns.
    pub open spec fn edge(self) -> u32 {
        match self {
            CoverSize::S250 => 250,
            CoverSize::S500 => 500,
            CoverSize::S1200 => 1200,
        }
    }

    pub fn pixels(self) -> (n: u32)
        ensures
            n == self.edge(),
    {
        match self {
            CoverSize::S250 => 250,
            CoverSize::S500 => 500,
            CoverSize::S1200 => 1200,
        }
    }
}

// ---------------------------------------------------------------------------
// Rate limit
// ---------------------------------------------------------------------------

/// Spaces requests so that each is issued at least `interval` after the one
/// before it. Times are nanoseconds of one clock that never goes back.
#[derive(Debug)]
pub struct RateLimiter {
    interval: u64,
    next_slot: Option<u64>,
}

/// How long a request that comes at `now` has to wait for a slot.
pub open spec fn slot_delay(slot: Option<u64>, now: u64) -> u64 {
    match slot {
        Some(at) => if at > now {
            (at - now) as u64
        } else {
            0
        },
        None => 0,
    }
}

impl RateLimiter {
    /// The least time between two requests.
    pub closed spec fn spacing(&self) -> u64 {
        self.interval
    }

    /// When the next request may be issued, if there was one before.
    pub closed spec fn slot(&self) -> Option<u64> {
        self.next_slot
    }

    pub fn new(interval: u64) -> (r: RateLimiter)
        ensures
            r.spacing() == interval,
            r.slot() is None,
    {
        RateLimiter { interval, next_slot: None }
    }

    /// How long to sleep before the caller may issue its request.
    pub fn wait(&self, now: u64) -> (delay: u64)
        ensures
            delay == slot_delay(self.slot(), now),
    {
        match self.next_slot {
            Some(at) => if at > now {
                at - now
            } else {
                0
            },
            None => 0,
        }
    }

    /// A request is issued at `now`, after the wait.
    pub fn issue(&mut self, now: u64)
        requires
            now + old(self).spacing() <= u64::MAX,
        ensures
            final(self).slot() == Some((now + old(self).spacing()) as u64),
            final(self).spacing() == old(self).spacing(),
    {
        self.next_slot = Some(now + self.interval);
    }
}

/// The MusicBrainz limiter (1 request/second).
pub fn musicbrainz_limiter() -> (r: RateLimiter)
    ensures
        r.spacing() == 1_000_000_000,
        r.slot() is None,
{
    RateLimiter::new(1_000_000_000)
}

/// Two requests in a row are at least the interval apart: one was issued at
/// `first`, the next one came at `now` and was issued at `second`, after it
/// had slept for as long as it was told, or longer.
pub proof fn requests_are_spaced(interval: u64, first: u64, now: u64, second: u64)
    requires
        first + interval <= u64::MAX,
        second >= now + slot_delay(Some((first + interval) as u64), now),
    ensures
        second >= first + interval,
{
}

/// A first request is not delayed.
pub proof fn first_request_is_immediate(now: u64)
    ensures
        slot_delay(None, now) == 0,
{
}

// ---------------------------------------------------------------------------
// Release search
// ---------------------------------------------------------------------------

/// Whether `c` belongs to the Lucene query syntax.
pub open spec fn special(c: char) -> bool {
    c == '+' || c == '-' || c == '&' || c == '|' || c == '!' || c == '(' || c == ')' || c == '{'
        || c == '}' || c == '[' || c == ']' || c == '^' || c == '"' || c == '~' || c == '*' || c
        == '?' || c == ':' || c == '\\' || c == '/'
}

/// `s` with a backslash before each special character.
pub open spec fn escaped(s: Seq<char>) -> Seq<char>
    decreases s.len(),
{
    if s.len() == 0 {
        s
    } else if special(s[0]) {
        seq!['\\', s[0]] + escaped(s.drop_first())
    } else {
        seq![s[0]] + escaped(s.drop_first())
    }
}

/// What a query text is matched as: a backslash makes the character behind it
/// literal. Nothing where a special character stands without one.
pub open spec fn matched(s: Seq<char>) -> Option<Seq<char>>
    decreases s.len(),
{
    if s.len() == 0 {
        Some(s)
    } else if s[0] == '\\' && s.len() > 1 {
        match matched(s.subrange(2, s.len() as int)) {
            Some(t) => Some(seq![s[1]] + t),
            None => None,
        }
    } else if special(s[0]) {
        None
    } else {
        match matched(s.drop_first()) {
            Some(t) => Some(seq![s[0]] + t),
            None => None,
        }
    }
}

/// An escaped text is matched literally, whatever it holds.
pub proof fn escaped_is_literal(s: Seq<char>)
    ensures
        matched(escaped(s)) == Some(s),
    decreases s.len(),
{
    if s.len() > 0 {
        let rest = s.drop_first();
        escaped_is_literal(rest);
        assert(seq![s[0]] + rest == s);
        let e = escaped(s);
        if special(s[0]) {
            assert(e.subrange(2, e.len() as int) == escaped(rest));
            assert(e[1] == s[0]);
        } else {
            assert(e.drop_first() == escaped(rest));
        }
    }
}

fn is_special(c: char) -> (r: bool)
    ensures
        r == special(c),
{
    c == '+' || c == '-' || c == '&' || c == '|' || c == '!' || c == '(' || c == ')' || c == '{'
        || c == '}' || c == '[' || c == ']' || c == '^' || c == '"' || c == '~' || c == '*' || c
        == '?' || c == ':' || c == '\\' || c == '/'
}

fn push_escaped(out: &mut String, s: &[char])
    ensures
        final(out)@ == old(out)@ + escaped(s@),
{
    let ghost before = out@;
    let ghost n = s@.len() as int;
    assert(s@.subrange(0, n) == s@);
    for i in 0..s.len()
        invariant
            n == s@.len(),
            out@ + escaped(s@.subrange(i as int, n)) == before + escaped(s@),
    {
        let ghost rest = s@.subrange(i as int, n);
        let ghost done = out@;
        assert(rest.drop_first() == s@.subrange(i + 1, n));
        if is_special(s[i]) {
            out.push('\\');
        }
        out.push(s[i]);
        assert(out@ + escaped(rest.drop_first()) == done + escaped(rest));
    }
    assert(s@.subrange(n, n) == Seq::<char>::empty());
    assert(out@ + Seq::<char>::empty() == out@);
}

/// Escapes Lucene query syntax so user text is matched literally.
pub fn lucene_escape(s: &str) -> (r: String)
    ensures
        r@ == escaped(s@),
{
    let mut out = String::new();
    push_escaped(&mut out, &chars_of(s));
    assert(Seq::<char>::empty() + escaped(s@) == escaped(s@));
    out
}

/// The query for a release.
pub open spec fn query_text(artist: Seq<char>, album: Seq<char>) -> Seq<char> {
    "release:\""@ + escaped(trim(album)) + "\" AND artist:\""@ + escaped(trim(artist)) + "\""@
}

/// The query for a release.
pub fn release_query(artist: &str, album: &str) -> (r: String)
    ensures
        r@ == query_text(artist@, album@),
{
    let mut out = copy_str("release:\"");
    push_escaped(&mut out, trim_of(&chars_of(album)));
    out.push_str("\" AND artist:\"");
    push_escaped(&mut out, trim_of(&chars_of(artist)));
    out.push_str("\"");
    out
}

/// The request that finds the releases of an album; nothing where the artist
/// or the album is blank.
pub fn find_release(artist: &str, album: &str) -> (r: Option<Request>)
    ensures
        match r {
            None => trim(artist@).len() == 0 || trim(album@).len() == 0,
            Some(req) => trim(artist@).len() > 0 && trim(album@).len() > 0 && asks(
                req,
                "https://musicbrainz.org/ws/2/release/"@,
                seq![
                    param("query"@, query_text(artist@, album@)),
                    param("fmt"@, "json"@),
                    param("limit"@, "10"@),
                ],
            ),
        },
{
    if trim_of(&chars_of(artist)).len() == 0 || trim_of(&chars_of(album)).len() == 0 {
        return None;
    }
    let r = plain_request(copy_str("https://musicbrainz.org/ws/2/release/")).with(
        "query",
        release_query(artist, album).as_str(),
    ).with("fmt", "json").with("limit", "10");
    assert(Seq::<ParamView>::empty().push(param("query"@, query_text(artist@, album@))).push(
        param("fmt"@, "json"@),
    ).push(param("limit"@, "10"@)) == seq![
        param("query"@, query_text(artist@, album@)),
        param("fmt"@, "json"@),
        param("limit"@, "10"@),
    ]);
    Some(r)
}

/// An artist as credited, with what joins it to the next one.
#[derive(Debug)]
pub struct MbCredit {
    pub name: String,
    pub joinphrase: String,
}

/// A release that a search found.
#[derive(Debug)]
pub struct MbRelease {
    pub id: String,
    pub score: u32,
    pub title: String,
    pub date: Option<String>,
    pub artist_credit: Vec<MbCredit>,
    pub release_group: Option<String>,
}

/// The first `n` credits as displayed.
pub open spec fn credited(c: Seq<MbCredit>, n: nat) -> Seq<char>
    decreases n,
{
    if n == 0 || n > c.len() {
        Seq::empty()
    } else {
        credited(c, (n - 1) as nat) + c[n - 1].name@ + c[n - 1].joinphrase@
    }
}

/// Whether the release at `i` is the best: no release has a higher score, none
/// before it as high a one.
pub open spec fn best(releases: Seq<MbRelease>, i: int) -> bool {
    &&& 0 <= i < releases.len()
    &&& releases[i].score >= MIN_SCORE
    &&& forall|j: int| 0 <= j < releases.len() ==> #[trigger] releases[j].score <= releases[i].score
    &&& forall|j: int| 0 <= j < i ==> #[trigger] releases[j].score < releases[i].score
}

/// Whether `r` describes a release that was found: an empty date is none.
pub open spec fn describes(r: ReleaseRef, m: MbRelease) -> bool {
    &&& r.mbid@ == m.id@
    &&& r.title@ == m.title@
    &&& text_opt(r.release_group_mbid) == text_opt(m.release_group)
    &&& r.artist@ == credited(m.artist_credit@, m.artist_credit@.len())
    &&& text_opt(r.date) == (match m.date {
        Some(d) => if d@.len() > 0 {
            Some(d@)
        } else {
            None
        },
        None => None,
    })
}

fn best_index(releases: &Vec<MbRelease>) -> (r: Option<usize>)
    ensures
        match r {
            Some(i) => best(releases@, i as int),
            None => forall|j: int|
                0 <= j < releases@.len() ==> #[trigger] releases@[j].score < MIN_SCORE,
        },
{
    let mut found: Option<usize> = None;
    for i in 0..releases.len()
        invariant
            match found {
                Some(b) => {
                    &&& b < i
                    &&& releases@[b as int].score >= MIN_SCORE
                    &&& forall|j: int|
                        0 <= j < i ==> #[trigger] releases@[j].score <= releases@[b as int].score
                    &&& forall|j: int|
                        0 <= j < b ==> #[trigger] releases@[j].score < releases@[b as int].score
                },
                None => forall|j: int|
                    0 <= j < i ==> #[trigger] releases@[j].score < MIN_SCORE,
            },
    {
        if releases[i].score >= MIN_SCORE {
            let better = match found {
                Some(b) => releases[i].score > releases[b].score,
                None => true,
            };
            if better {
                found = Some(i);
            }
        }
    }
    found
}

/// Highest score wins; ties keep MusicBrainz's order (its relevance ranking).
/// Nothing where every score is too low.
pub fn best_release(releases: &Vec<MbRelease>) -> (r: Option<ReleaseRef>)
    ensures
        match r {
            Some(x) => exists|i: int|
                #[trigger] best(releases@, i) && describes(x, releases@[i]),
            None => forall|j: int|
                0 <= j < releases@.len() ==> #[trigger] releases@[j].score < MIN_SCORE,
        },
{
    let i = match best_index(releases) {
        Some(i) => i,
        None => {
            return None;
        },
    };
    let m = &releases[i];
    let mut artist = String::new();
    for k in 0..m.artist_credit.len()
        invariant
            artist@ == credited(m.artist_credit@, k as nat),
    {
        artist.push_str(m.artist_credit[k].name.as_str());
        artist.push_str(m.artist_credit[k].joinphrase.as_str());
    }
    let date = match &m.date {
        Some(d) => if d.as_str().is_empty() {
            None
        } else {
            Some(d.clone())
        },
        None => None,
    };
    let release_group_mbid = match &m.release_group {
        Some(g) => Some(g.clone()),
        None => None,
    };
    let x = ReleaseRef {
        mbid: m.id.clone(),
        release_group_mbid,
        title: m.title.clone(),
        artist,
        date,
    };
    assert(best(releases@, i as int) && describes(x, releases@[i as int]));
    Some(x)
}

/// At most one release is the best one.
pub proof fn best_release_is_one(releases: Seq<MbRelease>, i: int, j: int)
    requires
        best(releases, i),
        best(releases, j),
    ensures
        i == j,
{
    if i < j {
        assert(releases[i].score < releases[j].score);
    }
    if j < i {
        assert(releases[j].score < releases[i].score);
    }
}

// ---------------------------------------------------------------------------
// Cover
// ---------------------------------------------------------------------------

/// Where the front cover of a release or a release group is.
pub open spec fn cover_url(kind: Seq<char>, id: Seq<char>, size: CoverSize) -> Seq<char> {
    "https://coverartarchive.org/"@ + kind + "/"@ + id + "/front-"@ + dec(size.edge() as nat)
}

/// Where to look for a front cover: the release, then its release group.
pub open spec fn cover_urls(release: ReleaseRef, size: CoverSize) -> Seq<Seq<char>> {
    match release.release_group_mbid {
        Some(g) => seq![
            cover_url("release"@, release.mbid@, size),
            cover_url("release-group"@, g@, size),
        ],
        None => seq![cover_url("release"@, release.mbid@, size)],
    }
}

fn url_of(kind: &str, id: &str, size: CoverSize) -> (s: String)
    ensures
        s@ == cover_url(kind@, id@, size),
{
    let mut s = concat2("https://coverartarchive.org/", kind);
    s.push_str("/");
    s.push_str(id);
    s.push_str("/front-");
    push_dec(&mut s, size.pixels() as u64);
    s
}

/// Where to look for the front cover, in this order.
pub fn front_cover(release: &ReleaseRef, size: CoverSize) -> (urls: Vec<String>)
    ensures
        texts(urls@) == cover_urls(*release, size),
{
    let mut urls: Vec<String> = Vec::new();
    push_text(&mut urls, url_of("release", release.mbid.as_str(), size));
    assert(texts(urls@) == seq![cover_url("release"@, release.mbid@, size)]);
    if let Some(g) = &release.release_group_mbid {
        push_text(&mut urls, url_of("release-group", g.as_str(), size));
        assert(texts(urls@) == cover_urls(*release, size));
    }
    urls
}

/// What to do after a look.
#[derive(Debug)]
pub enum CoverStep {
    /// There it is.
    Found(Vec<u8>),
    /// Not there: look at the next place.
    Next,
    /// Not there either, and there is no other place: the archive has no front
    /// cover.
    Missing,
    Failed(OnlineError),
}

/// Whether an answer says that a place holds no cover.
pub open spec fn is_absent(reply: Result<Vec<u8>, OnlineError>) -> bool {
    reply matches Err(OnlineError::Http { status, .. }) && status == 404
}

/// Whether a step is what a look at the place `at` of `n` comes to.
pub open spec fn is_cover_step(
    s: CoverStep,
    reply: Result<Vec<u8>, OnlineError>,
    at: int,
    n: int,
) -> bool {
    if is_absent(reply) {
        if at + 1 < n {
            s is Next
        } else {
            s is Missing
        }
    } else {
        match reply {
            Ok(bytes) => if bytes@.len() > 0 {
                s == CoverStep::Found(bytes)
            } else {
                s matches CoverStep::Failed(OnlineError::Parse(t)) && t@ == "empty cover image"@
            },
            Err(e) => s == CoverStep::Failed(e),
        }
    }
}

/// What a look at the place `at` of `n` comes to.
pub fn cover_reply(reply: Result<Vec<u8>, OnlineError>, at: usize, n: usize) -> (s: CoverStep)
    requires
        at < n,
    ensures
        is_cover_step(s, reply, at as int, n as int),
{
    match reply {
        Ok(bytes) => if bytes.len() > 0 {
            CoverStep::Found(bytes)
        } else {
            CoverStep::Failed(OnlineError::Parse(copy_str("empty cover image")))
        },
        Err(e) => if !is_not_found(&e) {
            CoverStep::Failed(e)
        } else if at + 1 < n {
            CoverStep::Next
        } else {
            CoverStep::Missing
        },
    }
}

/// There is no cover exactly where every place was looked at and holds none:
/// `steps` are what the looks came to, each but the last leading to the next.
pub proof fn a_missing_cover_is_nowhere(
    replies: Seq<Result<Vec<u8>, OnlineError>>,
    steps: Seq<CoverStep>,
    n: int,
)
    requires
        0 < steps.len() <= n,
        replies.len() == steps.len(),
        forall|i: int|
            0 <= i < steps.len() ==> is_cover_step(#[trigger] steps[i], replies[i], i, n),
        forall|i: int| 0 <= i < steps.len() - 1 ==> (#[trigger] steps[i]) is Next,
    ensures
        steps.last() is Missing <==> steps.len() == n && forall|i: int|
            0 <= i < n ==> is_absent(#[trigger] replies[i]),
{
    let last = steps.len() - 1;
    assert(is_cover_step(steps[last], replies[last], last, n));
    assert forall|i: int| 0 <= i < last implies is_absent(#[trigger] replies[i]) by {
        assert(is_cover_step(steps[i], replies[i], i, n));
        assert(steps[i] is Next);
    }
}

} // verus!
