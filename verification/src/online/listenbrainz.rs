//! ListenBrainz client (<https://listenbrainz.readthedocs.io/en/latest/users/api/core.html>).
//! Authenticates with the user's personal token from their profile page.

use vstd::prelude::*;
use vstd::slice::slice_subrange;

use crate::online::error::OnlineError;
use crate::online::lastfm::{filled, filled_text};
use crate::online::scrobble::{Scrobble, ScrobbleTrack};
use crate::online::sending::{send_after, sent, SendStep};
use crate::text::{
    chars_of, concat2, copy_str, string_of, text_opt, trim, trim_char_end, trim_char_end_of,
    trimmed,
};

verus! {

pub const API_BASE: &'static str = "https://api.listenbrainz.org";

/// Listens sent per request; the server accepts up to 1000 but also caps the
/// payload size, so stay well below.
pub const MAX_BATCH: usize = 100;

/// What submissions say they come from.
pub const CLIENT: &'static str = "ricercar";

pub const CLIENT_VERSION: &'static str = "0.3.0";

/// What is said of a listen. What is not known is left out.
#[derive(Debug)]
pub struct Listen {
    /// Left out of what is playing now.
    pub listened_at: Option<i64>,
    pub artist_name: String,
    pub track_name: String,
    pub release_name: Option<String>,
    pub media_player: &'static str,
    pub submission_client: &'static str,
    pub submission_client_version: &'static str,
    pub duration_ms: Option<u64>,
    pub tracknumber: Option<u32>,
    pub recording_mbid: Option<String>,
}

/// The contents of a `Listen`.
pub struct ListenView {
    pub listened_at: Option<i64>,
    pub artist_name: Seq<char>,
    pub track_name: Seq<char>,
    pub release_name: Option<Seq<char>>,
    pub media_player: Seq<char>,
    pub submission_client: Seq<char>,
    pub submission_client_version: Seq<char>,
    pub duration_ms: Option<u64>,
    pub tracknumber: Option<u32>,
    pub recording_mbid: Option<Seq<char>>,
}

impl View for Listen {
    type V = ListenView;

    open spec fn view(&self) -> ListenView {
        ListenView {
            listened_at: self.listened_at,
            artist_name: self.artist_name@,
            track_name: self.track_name@,
            release_name: text_opt(self.release_name),
            media_player: self.media_player@,
            submission_client: self.submission_client@,
            submission_client_version: self.submission_client_version@,
            duration_ms: self.duration_ms,
            tracknumber: self.tracknumber,
            recording_mbid: text_opt(self.recording_mbid),
        }
    }
}

/// The kinds of a submission.
#[derive(Debug, Clone, Copy, PartialEq, Eq, Structural)]
pub enum ListenType {
    PlayingNow,
    Single,
    Import,
}

impl ListenType {
    /// The text of `as_str`.
    pub open spec fn text(self) -> Seq<char> {
        match self {
            ListenType::PlayingNow => "playing_now"@,
            ListenType::Single => "single"@,
            ListenType::Import => "import"@,
        }
    }

    pub fn as_str(self) -> (s: &'static str)
        ensures
            s@ == self.text(),
    {
        match self {
            ListenType::PlayingNow => "playing_now",
            ListenType::Single => "single",
            ListenType::Import => "import",
        }
    }
}

/// A `submit-listens` body.
#[derive(Debug)]
pub struct Payload {
    pub listen_type: ListenType,
    pub listens: Vec<Listen>,
}

/// What is said of a track: blank texts, an unknown duration and a missing
/// number are left out.
pub open spec fn listen_of(t: ScrobbleTrack, listened_at: Option<i64>) -> ListenView {
    ListenView {
        listened_at,
        artist_name: t.artist@,
        track_name: t.title@,
        release_name: filled(t.album),
        media_player: CLIENT@,
        submission_client: CLIENT@,
        submission_client_version: CLIENT_VERSION@,
        duration_ms: if t.duration_ms > 0 {
            Some(t.duration_ms)
        } else {
            None
        },
        tracknumber: t.track_number,
        recording_mbid: filled(t.mbid),
    }
}

/// The contents of a list of listens.
pub open spec fn listen_views(v: Seq<Listen>) -> Seq<ListenView> {
    Seq::new(v.len(), |i: int| v[i]@)
}

/// What is said of some scrobbles, in order.
pub open spec fn listens_of(s: Seq<Scrobble>) -> Seq<ListenView> {
    Seq::new(s.len(), |i: int| listen_of(s[i].track, Some(s[i].started_at_unix)))
}

fn listen(t: &ScrobbleTrack, listened_at: Option<i64>) -> (l: Listen)
    ensures
        l@ == listen_of(*t, listened_at),
{
    Listen {
        listened_at,
        artist_name: t.artist.clone(),
        track_name: t.title.clone(),
        release_name: filled_text(&t.album),
        media_player: CLIENT,
        submission_client: CLIENT,
        submission_client_version: CLIENT_VERSION,
        duration_ms: if t.duration_ms > 0 {
            Some(t.duration_ms)
        } else {
            None
        },
        tracknumber: t.track_number,
        recording_mbid: filled_text(&t.mbid),
    }
}

/// Builds the body for some listens.
pub fn listen_payload(listen_type: ListenType, items: &[Scrobble]) -> (p: Payload)
    ensures
        p.listen_type == listen_type,
        listen_views(p.listens@) == listens_of(items@),
{
    let mut listens: Vec<Listen> = Vec::new();
    assert(listen_views(listens@) == listens_of(items@).subrange(0, 0));
    for i in 0..items.len()
        invariant
            listen_views(listens@) == listens_of(items@).subrange(0, i as int),
    {
        let ghost before = listens@;
        let l = listen(&items[i].track, Some(items[i].started_at_unix));
        let ghost v = l@;
        listens.push(l);
        assert(listen_views(listens@) == listen_views(before).push(v));
        assert(listens_of(items@).subrange(0, i + 1) == listens_of(items@).subrange(
            0,
            i as int,
        ).push(v));
    }
    assert(listens_of(items@).subrange(0, items@.len() as int) == listens_of(items@));
    Payload { listen_type, listens }
}

/// The kind of a submission: `single` for one listen, `import` for several.
pub open spec fn batch_type(n: nat) -> ListenType {
    if n == 1 {
        ListenType::Single
    } else {
        ListenType::Import
    }
}

/// Whether the payloads are the scrobbles from `from` on in batches: each but
/// the last is full, and none is empty.
pub open spec fn in_batches(payloads: Seq<Payload>, scrobbles: Seq<Scrobble>, from: int) -> bool
    decreases payloads.len(),
{
    if payloads.len() == 0 {
        from == scrobbles.len()
    } else {
        let end = if from + MAX_BATCH < scrobbles.len() {
            from + MAX_BATCH
        } else {
            scrobbles.len() as int
        };
        &&& from < scrobbles.len()
        &&& payloads[0].listen_type == batch_type((end - from) as nat)
        &&& listen_views(payloads[0].listens@) == listens_of(scrobbles.subrange(from, end))
        &&& in_batches(payloads.drop_first(), scrobbles, end)
    }
}

proof fn lemma_push_batch(payloads: Seq<Payload>, last: Payload, scrobbles: Seq<Scrobble>, from: int, mid: int)
    requires
        0 <= from <= mid < scrobbles.len(),
        in_batches(payloads, scrobbles.subrange(0, mid), from),
        mid == from + payloads.len() * MAX_BATCH,
        ({
            let end = if mid + MAX_BATCH < scrobbles.len() {
                mid + MAX_BATCH
            } else {
                scrobbles.len() as int
            };
            &&& end == scrobbles.len()
            &&& last.listen_type == batch_type((end - mid) as nat)
            &&& listen_views(last.listens@) == listens_of(scrobbles.subrange(mid, end))
        }),
    ensures
        in_batches(payloads.push(last), scrobbles, from),
    decreases payloads.len(),
{
    if payloads.len() == 0 {
        assert(payloads.push(last).drop_first() == Seq::<Payload>::empty());
        assert(payloads.push(last)[0] == last);
        assert(in_batches(Seq::<Payload>::empty(), scrobbles, scrobbles.len() as int));
    } else {
        let part = scrobbles.subrange(0, mid);
        assert(payloads.len() * MAX_BATCH >= MAX_BATCH) by (nonlinear_arith)
            requires
                payloads.len() >= 1,
        ;
        let end = from + MAX_BATCH;
        assert(end <= mid);
        assert(part.subrange(from, end) == scrobbles.subrange(from, end));
        assert(payloads.drop_first().len() * MAX_BATCH == payloads.len() * MAX_BATCH - MAX_BATCH)
            by (nonlinear_arith)
            requires
                payloads.drop_first().len() == payloads.len() - 1,
        ;
        lemma_push_batch(payloads.drop_first(), last, scrobbles, end, mid);
        assert(payloads.push(last).drop_first() == payloads.drop_first().push(last));
        assert(payloads.push(last)[0] == payloads[0]);
    }
}

#[derive(Debug, Clone)]
pub struct ListenBrainz {
    token: String,
    base: String,
}

impl ListenBrainz {
    /// The user's token.
    pub closed spec fn key(&self) -> Seq<char> {
        self.token@
    }

    /// The server's address.
    pub closed spec fn server(&self) -> Seq<char> {
        self.base@
    }

    pub fn new(token: &str) -> (r: ListenBrainz)
        ensures
            r.key() == trim(token@),
            r.server() == "https://api.listenbrainz.org"@,
    {
        ListenBrainz { token: trimmed(token), base: copy_str("https://api.listenbrainz.org") }
    }

    /// Targets another ListenBrainz-compatible server (e.g. self-hosted).
    pub fn with_base_url(self, base: &str) -> (r: ListenBrainz)
        ensures
            r.key() == self.key(),
            r.server() == trim_char_end(base@, '/'),
    {
        let c = chars_of(base);
        ListenBrainz { token: self.token, base: string_of(trim_char_end_of(&c, '/')) }
    }

    /// The server's address, without a slash at its end.
    pub fn base_url(&self) -> (s: &str)
        ensures
            s@ == self.server(),
    {
        self.base.as_str()
    }

    /// Where and how to ask whom the token belongs to: the address and the
    /// `Authorization` header.
    pub fn validate_token(&self) -> (r: Result<(String, String), OnlineError>)
        ensures
            match r {
                Ok(req) => self.key().len() > 0 && req.0@ == self.server()
                    + "/1/validate-token"@ && req.1@ == "Token "@ + self.key(),
                Err(e) => self.key().len() == 0 && e is NotConfigured,
            },
    {
        match self.auth_header() {
            Ok(h) => Ok((concat2(self.base.as_str(), "/1/validate-token"), h)),
            Err(e) => Err(e),
        }
    }

    /// Where and how to submit: the address and the `Authorization` header.
    pub fn submit_target(&self) -> (r: Result<(String, String), OnlineError>)
        ensures
            match r {
                Ok(req) => self.key().len() > 0 && req.0@ == self.server()
                    + "/1/submit-listens"@ && req.1@ == "Token "@ + self.key(),
                Err(e) => self.key().len() == 0 && e is NotConfigured,
            },
    {
        match self.auth_header() {
            Ok(h) => Ok((concat2(self.base.as_str(), "/1/submit-listens"), h)),
            Err(e) => Err(e),
        }
    }

    fn auth_header(&self) -> (r: Result<String, OnlineError>)
        ensures
            match r {
                Ok(h) => self.key().len() > 0 && h@ == "Token "@ + self.key(),
                Err(e) => self.key().len() == 0 && e is NotConfigured,
            },
    {
        if self.token.as_str().is_empty() {
            return Err(OnlineError::NotConfigured);
        }
        Ok(concat2("Token ", self.token.as_str()))
    }

    /// The body that says what is playing.
    pub fn playing_now(&self, track: &ScrobbleTrack) -> (r: Result<Payload, OnlineError>)
        ensures
            match r {
                Ok(p) => self.key().len() > 0 && p.listen_type == ListenType::PlayingNow
                    && listen_views(p.listens@) == seq![listen_of(*track, None)],
                Err(e) => self.key().len() == 0 && e is NotConfigured,
            },
    {
        match self.auth_header() {
            Ok(_) => {
                let mut listens: Vec<Listen> = Vec::new();
                listens.push(listen(track, None));
                assert(listen_views(listens@) == seq![listen_of(*track, None)]);
                Ok(Payload { listen_type: ListenType::PlayingNow, listens })
            },
            Err(e) => Err(e),
        }
    }

    /// The bodies that submit listens: `single` for one, `import` batches for
    /// several. Nothing to submit needs no token.
    pub fn submit(&self, scrobbles: &[Scrobble]) -> (r: Result<Vec<Payload>, OnlineError>)
        ensures
            match r {
                Ok(v) => (scrobbles@.len() == 0 || self.key().len() > 0) && in_batches(
                    v@,
                    scrobbles@,
                    0,
                ),
                Err(e) => scrobbles@.len() > 0 && self.key().len() == 0 && e is NotConfigured,
            },
    {
        if scrobbles.len() > 0 {
            if let Err(e) = self.auth_header() {
                return Err(e);
            }
        }
        let mut out: Vec<Payload> = Vec::new();
        let mut from: usize = 0;
        let n = scrobbles.len();
        assert(scrobbles@.subrange(0, 0).len() == 0);
        while from < n
            invariant
                n == scrobbles@.len(),
                from <= n,
                in_batches(out@, scrobbles@.subrange(0, from as int), 0),
                from < n ==> from == out@.len() * MAX_BATCH,
            decreases n - from,
        {
            let end: usize = if n - from > MAX_BATCH {
                from + MAX_BATCH
            } else {
                n
            };
            let chunk = slice_subrange(scrobbles, from, end);
            let kind = if chunk.len() == 1 {
                ListenType::Single
            } else {
                ListenType::Import
            };
            let p = listen_payload(kind, chunk);
            let ghost done = out@;
            proof {
                let part = scrobbles@.subrange(0, end as int);
                assert(part.subrange(0, from as int) == scrobbles@.subrange(0, from as int));
                assert(part.subrange(from as int, end as int) == scrobbles@.subrange(
                    from as int,
                    end as int,
                ));
                lemma_push_batch(done, p, part, 0, from as int);
                assert(done.push(p).len() * MAX_BATCH == done.len() * MAX_BATCH + MAX_BATCH)
                    by (nonlinear_arith)
                    requires
                        done.push(p).len() == done.len() + 1,
                ;
            }
            out.push(p);
            from = end;
        }
        assert(scrobbles@.subrange(0, n as int) == scrobbles@);
        Ok(out)
    }
}

/// What a submission's answer comes to: a rejected token is told apart.
pub fn submit_reply(reply: Result<String, OnlineError>) -> (r: Result<(), OnlineError>)
    ensures
        match reply {
            Ok(_) => r is Ok,
            Err(OnlineError::Http { status, body }) => if status == 401 {
                r == Err::<(), OnlineError>(OnlineError::Auth(body))
            } else {
                r == Err::<(), OnlineError>(OnlineError::Http { status, body })
            },
            Err(e) => r == Err::<(), OnlineError>(e),
        },
{
    match reply {
        Ok(_) => Ok(()),
        Err(OnlineError::Http { status, body }) => if status == 401 {
            Err(OnlineError::Auth(body))
        } else {
            Err(OnlineError::Http { status, body })
        },
        Err(e) => Err(e),
    }
}

/// Takes in the answer to the body at `at` of `n`: the next is sent, unless this
/// one failed.
pub fn submit_sent(at: usize, n: usize, reply: Result<String, OnlineError>) -> (s: SendStep)
    requires
        at < n,
    ensures
        match reply {
            Ok(_) => s == send_after(at, n, Ok(())),
            Err(OnlineError::Http { status, body }) => s == send_after(
                at,
                n,
                Err(
                    if status == 401 {
                        OnlineError::Auth(body)
                    } else {
                        OnlineError::Http { status, body }
                    },
                ),
            ),
            Err(e) => s == send_after(at, n, Err(e)),
        },
{
    sent(at, n, submit_reply(reply))
}

/// A `validate-token` answer.
#[derive(Debug)]
pub struct ValidateResponse {
    pub valid: bool,
    pub user_name: Option<String>,
}

/// The user name the token belongs to, or `None` if invalid.
pub fn parse_validate(r: ValidateResponse) -> (name: Option<String>)
    ensures
        name == (if r.valid {
            r.user_name
        } else {
            None
        }),
{
    if r.valid {
        r.user_name
    } else {
        None
    }
}

/// What a validation comes to: a token that the server rejects is invalid.
pub fn validate_reply(reply: Result<ValidateResponse, OnlineError>) -> (r: Result<
    Option<String>,
    OnlineError,
>)
    ensures
        match reply {
            Ok(v) => r == Ok::<Option<String>, OnlineError>(
                if v.valid {
                    v.user_name
                } else {
                    None
                },
            ),
            Err(OnlineError::Http { status, body }) => if status == 400 || status == 401 {
                r == Ok::<Option<String>, OnlineError>(None)
            } else {
                r == Err::<Option<String>, OnlineError>(OnlineError::Http { status, body })
            },
            Err(e) => r == Err::<Option<String>, OnlineError>(e),
        },
{
    match reply {
        Ok(v) => Ok(parse_validate(v)),
        Err(OnlineError::Http { status, body }) => if status == 400 || status == 401 {
            Ok(None)
        } else {
            Err(OnlineError::Http { status, body })
        },
        Err(e) => Err(e),
    }
}

} // verus!
