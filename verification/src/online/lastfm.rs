//! Last.fm scrobbling API 2.0 (<https://www.last.fm/api>), using the user's
//! own API account (`api_key` + `shared_secret`).
//!
//! Desktop auth flow:
//! 1. `auth.getToken`, then open [`LastFm::auth_url`] in a browser;
//! 2. once the user approved, `auth.getSession` yields a session key that
//!    never expires; store it and pass it to the scrobbling calls. Before
//!    approval it fails with [`OnlineError::Auth`] (error 14), so it can be
//!    polled.

use vstd::prelude::*;
use vstd::slice::slice_subrange;
use vstd::utf8::encode_utf8;

use crate::online::digest::{hex, md5_digest, md5_hex};
use crate::online::error::OnlineError;
use crate::online::http::{
    insert_param, name_order, param, param_views, push_param, ParamView,
};
use crate::online::scrobble::{chunks_from, Scrobble, ScrobbleTrack};
use crate::online::sending::{send_after, sent, SendStep};
use crate::order::{
    order_is_unique, sort_stable, sorting_is_stable, text_order_is_total, text_order_is_transitive,
    total_preorder,
};
use crate::text::{
    bytes_of, chars_of, copy_str, dec, dec_int, dec_string, int_string, parse_unsigned, push_dec,
    read_unsigned, same_str, string_of, text_opt, trim, trim_of, trimmed,
};

verus! {

pub const API_URL: &'static str = "https://ws.audioscrobbler.com/2.0/";

pub const AUTH_URL: &'static str = "https://www.last.fm/api/auth/";

/// `track.scrobble` accepts at most 50 scrobbles per request.
pub const MAX_BATCH: usize = 50;

// ---------------------------------------------------------------------------
// Answers
// ---------------------------------------------------------------------------

/// The unsigned number at a JSON pointer in a JSON text.
pub uninterp spec fn json_number(body: Seq<char>, pointer: Seq<char>) -> Option<u64>;

/// The string at a JSON pointer in a JSON text.
pub uninterp spec fn json_text(body: Seq<char>, pointer: Seq<char>) -> Option<Seq<char>>;

/// What is wrong with a JSON text, if anything.
pub uninterp spec fn json_fault(body: Seq<char>) -> Option<Seq<char>>;

/// `serde_json::from_str` and `Value::pointer`, `Value::as_u64`: the unsigned
/// number at a pointer; nothing where the text is no JSON or something else is
/// there. The grammar of JSON is only named.
#[verifier::external_body]
fn number_at(body: &str, pointer: &str) -> (r: Option<u64>)
    ensures
        r == json_number(body@, pointer@),
{
    serde_json::from_str::<serde_json::Value>(body).ok()?.pointer(pointer)?.as_u64()
}

/// `serde_json::from_str` and `Value::pointer`, `Value::as_str`: the string at
/// a pointer; nothing where the text is no JSON or something else is there. The
/// grammar of JSON is only named.
#[verifier::external_body]
fn text_at(body: &str, pointer: &str) -> (r: Option<String>)
    ensures
        text_opt(r) == json_text(body@, pointer@),
{
    serde_json::from_str::<serde_json::Value>(body).ok()?.pointer(pointer)?.as_str().map(
        str::to_string,
    )
}

/// `serde_json::from_str` and its error's text: what is wrong with a JSON text;
/// nothing where it is one. The grammar of JSON is only named.
#[verifier::external_body]
fn fault_in(body: &str) -> (r: Option<String>)
    ensures
        text_opt(r) == json_fault(body@),
{
    serde_json::from_str::<serde_json::Value>(body).err().map(|e| e.to_string())
}

/// The text of a service error.
pub open spec fn error_words(code: u64, message: Seq<char>) -> Seq<char> {
    "Last.fm error "@ + dec(code as nat) + ": "@ + message
}

/// Whether a service error means that credentials were rejected: invalid,
/// expired or unauthorized token, invalid session, key or signature, suspended
/// key.
pub open spec fn auth_code(code: u64) -> bool {
    code == 4 || code == 9 || code == 10 || code == 13 || code == 14 || code == 15 || code == 26
}

/// Whether a service error will go away: service offline, temporarily
/// unavailable, rate limited.
pub open spec fn passing_code(code: u64) -> bool {
    code == 11 || code == 16 || code == 29
}

/// Whether `e` is the error for a service error.
pub open spec fn is_service_error(e: OnlineError, code: u64, message: Seq<char>) -> bool {
    if auth_code(code) {
        e matches OnlineError::Auth(t) && t@ == error_words(code, message)
    } else {
        e matches OnlineError::Http { status, body } && status == (if passing_code(code) {
            503u16
        } else {
            400u16
        }) && body@ == error_words(code, message)
    }
}

/// The error for a service error.
pub fn service_error(code: u64, message: &str) -> (e: OnlineError)
    ensures
        is_service_error(e, code, message@),
{
    let mut text = copy_str("Last.fm error ");
    push_dec(&mut text, code);
    text.push_str(": ");
    text.push_str(message);
    if code == 4 || code == 9 || code == 10 || code == 13 || code == 14 || code == 15 || code
        == 26 {
        OnlineError::Auth(text)
    } else if code == 11 || code == 16 || code == 29 {
        OnlineError::Http { status: 503, body: text }
    } else {
        OnlineError::Http { status: 400, body: text }
    }
}

/// The message of a service error.
pub open spec fn error_message(body: Seq<char>) -> Seq<char> {
    match json_text(body, "/message"@) {
        Some(m) => m,
        None => ""@,
    }
}

/// Maps a Last.fm `{"error": n, "message": ...}` body to an error, if it is one.
pub fn api_error(body: &str) -> (r: Option<OnlineError>)
    ensures
        match json_number(body@, "/error"@) {
            Some(code) => r matches Some(e) && is_service_error(e, code, error_message(body@)),
            None => r is None,
        },
{
    match number_at(body, "/error") {
        Some(code) => {
            let message = match text_at(body, "/message") {
                Some(m) => m,
                None => copy_str(""),
            };
            Some(service_error(code, message.as_str()))
        },
        None => None,
    }
}

/// What a reply comes to. Failures are reported with an HTTP error, or
/// sometimes with HTTP 200; a body that is no JSON is an error too.
pub fn check_reply(reply: Result<String, OnlineError>) -> (r: Result<String, OnlineError>)
    ensures
        match reply {
            Ok(body) => match json_number(body@, "/error"@) {
                Some(code) => r matches Err(e) && is_service_error(
                    e,
                    code,
                    error_message(body@),
                ),
                None => match json_fault(body@) {
                    Some(fault) => r matches Err(OnlineError::Parse(t)) && t@ == fault,
                    None => r == Ok::<String, OnlineError>(body),
                },
            },
            Err(OnlineError::Http { status, body }) => match json_number(body@, "/error"@) {
                Some(code) => r matches Err(e) && is_service_error(
                    e,
                    code,
                    error_message(body@),
                ),
                None => r == Err::<String, OnlineError>(OnlineError::Http { status, body }),
            },
            Err(e) => r == Err::<String, OnlineError>(e),
        },
{
    match reply {
        Ok(body) => {
            if let Some(e) = api_error(body.as_str()) {
                return Err(e);
            }
            match fault_in(body.as_str()) {
                Some(fault) => Err(OnlineError::Parse(fault)),
                None => Ok(body),
            }
        },
        Err(OnlineError::Http { status, body }) => match api_error(body.as_str()) {
            Some(e) => Err(e),
            None => Err(OnlineError::Http { status, body }),
        },
        Err(e) => Err(e),
    }
}

/// Outcome of a `track.scrobble` call, summed over batches.
#[derive(Debug, Clone, Copy, PartialEq, Eq, Structural)]
pub struct ScrobbleOutcome {
    pub accepted: u32,
    /// Filtered by Last.fm (e.g. timestamp too old, bad metadata); resending
    /// them would not help.
    pub ignored: u32,
}

impl Default for ScrobbleOutcome {
    fn default() -> (r: ScrobbleOutcome)
        ensures
            r == (ScrobbleOutcome { accepted: 0, ignored: 0 }),
    {
        ScrobbleOutcome { accepted: 0, ignored: 0 }
    }
}

/// A count that comes as a number or a string, depending on the endpoint's
/// mood; its low 32 bits.
pub open spec fn count_of(number: Option<u64>, text: Option<Seq<char>>) -> u32 {
    let n = match number {
        Some(n) => n as int,
        None => match text {
            Some(t) => match read_unsigned(t, u64::MAX as nat) {
                Some(n) => n as int,
                None => 0,
            },
            None => 0,
        },
    };
    (n % 0x1_0000_0000) as u32
}

/// A count that comes as a number or a string.
pub fn read_count(number: Option<u64>, text: &Option<String>) -> (r: u32)
    ensures
        r == count_of(number, text_opt(*text)),
{
    let n: u64 = match number {
        Some(n) => n,
        None => match text {
            Some(t) => match parse_unsigned(&chars_of(t.as_str()), u64::MAX) {
                Some(n) => n,
                None => 0,
            },
            None => 0,
        },
    };
    (n % 0x1_0000_0000) as u32
}

fn count_at(body: &str, pointer: &str) -> (r: u32)
    ensures
        r == count_of(json_number(body@, pointer@), json_text(body@, pointer@)),
{
    read_count(number_at(body, pointer), &text_at(body, pointer))
}

/// What became of the scrobbles of a batch.
pub fn parse_scrobble_outcome(body: &str) -> (r: ScrobbleOutcome)
    ensures
        r.accepted == count_of(
            json_number(body@, "/scrobbles/@attr/accepted"@),
            json_text(body@, "/scrobbles/@attr/accepted"@),
        ),
        r.ignored == count_of(
            json_number(body@, "/scrobbles/@attr/ignored"@),
            json_text(body@, "/scrobbles/@attr/ignored"@),
        ),
{
    ScrobbleOutcome {
        accepted: count_at(body, "/scrobbles/@attr/accepted"),
        ignored: count_at(body, "/scrobbles/@attr/ignored"),
    }
}

impl ScrobbleOutcome {
    /// Adds the outcome of a batch.
    pub fn combine(&mut self, o: ScrobbleOutcome)
        requires
            old(self).accepted + o.accepted <= u32::MAX,
            old(self).ignored + o.ignored <= u32::MAX,
        ensures
            final(self).accepted == old(self).accepted + o.accepted,
            final(self).ignored == old(self).ignored + o.ignored,
    {
        self.accepted = self.accepted + o.accepted;
        self.ignored = self.ignored + o.ignored;
    }

    /// Takes in what the batch at `at` of `n` came to: its outcome is added, and
    /// the next is sent; a failure ends the submission.
    pub fn batch_sent(
        &mut self,
        at: usize,
        n: usize,
        reply: Result<ScrobbleOutcome, OnlineError>,
    ) -> (s: SendStep)
        requires
            at < n,
            reply matches Ok(o) ==> old(self).accepted + o.accepted <= u32::MAX && old(
                self,
            ).ignored + o.ignored <= u32::MAX,
        ensures
            match reply {
                Ok(o) => {
                    &&& final(self).accepted == old(self).accepted + o.accepted
                    &&& final(self).ignored == old(self).ignored + o.ignored
                    &&& s == send_after(at, n, Ok(()))
                },
                Err(e) => *final(self) == *old(self) && s == send_after(at, n, Err(e)),
            },
    {
        match reply {
            Ok(o) => {
                self.combine(o);
                sent(at, n, Ok(()))
            },
            Err(e) => sent(at, n, Err(e)),
        }
    }
}

// ---------------------------------------------------------------------------
// Requests
// ---------------------------------------------------------------------------

/// An authorized session; `key` is long-lived and should be persisted.
#[derive(Debug, Clone)]
pub struct Session {
    pub name: String,
    pub key: String,
}

#[derive(Debug, Clone)]
pub struct LastFm {
    api_key: String,
    shared_secret: String,
}

/// Whether a parameter is signed: `format` and `callback` are not.
pub open spec fn is_signed(p: ParamView) -> bool {
    p.name != "format"@ && p.name != "callback"@
}

/// The signed ones among the first `n` parameters.
pub open spec fn signed_params(params: Seq<ParamView>, n: nat) -> Seq<ParamView>
    decreases n,
{
    if n == 0 || n > params.len() {
        Seq::empty()
    } else if is_signed(params[n - 1]) {
        signed_params(params, (n - 1) as nat).push(params[n - 1])
    } else {
        signed_params(params, (n - 1) as nat)
    }
}

/// Names and values of the first `n` parameters, one after another.
pub open spec fn run_together(params: Seq<ParamView>, n: nat) -> Seq<char>
    decreases n,
{
    if n == 0 || n > params.len() {
        Seq::empty()
    } else {
        run_together(params, (n - 1) as nat) + params[n - 1].name + params[n - 1].value
    }
}

/// The text that a signature is the digest of.
pub open spec fn signed_text(params: Seq<ParamView>, secret: Seq<char>) -> Seq<char> {
    let sorted = sort_stable(signed_params(params, params.len()), name_order());
    run_together(sorted, sorted.len()) + secret
}

/// The `api_sig` of some parameters.
pub open spec fn signature(params: Seq<ParamView>, secret: Seq<char>) -> Seq<char> {
    hex(md5_digest(encode_utf8(signed_text(params, secret))))
}

fn sort_signed(params: &[(String, String)]) -> (r: Vec<(String, String)>)
    ensures
        param_views(r@) == sort_stable(
            signed_params(param_views(params@), params@.len()),
            name_order(),
        ),
{
    let ghost all = param_views(params@);
    let mut out: Vec<(String, String)> = Vec::new();
    assert(param_views(out@) == Seq::<ParamView>::empty());
    for i in 0..params.len()
        invariant
            all == param_views(params@),
            param_views(out@) == sort_stable(signed_params(all, i as nat), name_order()),
    {
        let name = params[i].0.as_str();
        if !same_str(name, "format") && !same_str(name, "callback") {
            let ghost chosen = signed_params(all, i as nat);
            assert(chosen.push(all[i as int]).drop_last() == chosen);
            insert_param(&mut out, name, params[i].1.as_str());
        }
    }
    out
}

/// The text that a signature is the digest of.
pub fn signature_text(params: &[(String, String)], shared_secret: &str) -> (s: String)
    ensures
        s@ == signed_text(param_views(params@), shared_secret@),
{
    let sorted = sort_signed(params);
    let ghost views = param_views(sorted@);
    let mut s = String::new();
    for i in 0..sorted.len()
        invariant
            views == param_views(sorted@),
            s@ == run_together(views, i as nat),
    {
        s.push_str(sorted[i].0.as_str());
        s.push_str(sorted[i].1.as_str());
    }
    s.push_str(shared_secret);
    s
}

/// `api_sig`: md5 of all parameters sorted by name, concatenated as
/// `name` + `value`, followed by the shared secret. `format` and `callback`
/// are not signed.
pub fn api_signature(params: &[(String, String)], shared_secret: &str) -> (s: String)
    ensures
        s@ == signature(param_views(params@), shared_secret@),
        s@.len() == 32,
{
    let text = signature_text(params, shared_secret);
    md5_hex(&bytes_of(text.as_str()))
}

/// A name, with an index where it belongs to a batch.
pub open spec fn indexed(base: Seq<char>, batch: Option<(usize, i64)>) -> Seq<char> {
    match batch {
        Some((i, _)) => base + "["@ + dec(i as nat) + "]"@,
        None => base,
    }
}

/// A text that is there, trimmed.
pub open spec fn filled(s: Option<String>) -> Option<Seq<char>> {
    match s {
        Some(t) => if trim(t@).len() > 0 {
            Some(trim(t@))
        } else {
            None
        },
        None => None,
    }
}

/// A parameter for an optional text.
pub open spec fn optional_param(
    base: Seq<char>,
    value: Option<Seq<char>>,
    batch: Option<(usize, i64)>,
) -> Seq<ParamView> {
    match value {
        Some(v) => seq![param(indexed(base, batch), v)],
        None => Seq::empty(),
    }
}

/// The parameters of a track.
pub open spec fn track_params(t: ScrobbleTrack, batch: Option<(usize, i64)>) -> Seq<ParamView> {
    seq![
        param(indexed("artist"@, batch), t.artist@),
        param(indexed("track"@, batch), t.title@),
    ] + optional_param(
        "timestamp"@,
        match batch {
            Some((_, ts)) => Some(dec_int(ts as int)),
            None => None,
        },
        batch,
    ) + optional_param("album"@, filled(t.album), batch) + optional_param(
        "albumArtist"@,
        filled(t.album_artist),
        batch,
    ) + optional_param("mbid"@, filled(t.mbid), batch) + optional_param(
        "trackNumber"@,
        match t.track_number {
            Some(n) => Some(dec(n as nat)),
            None => None,
        },
        batch,
    ) + optional_param(
        "duration"@,
        if t.duration_ms > 0 {
            Some(dec((t.duration_ms / 1000) as nat))
        } else {
            None
        },
        batch,
    )
}

fn index_name(base: &str, batch: Option<(usize, i64)>) -> (r: String)
    ensures
        r@ == indexed(base@, batch),
{
    let mut s = copy_str(base);
    if let Some((i, _)) = batch {
        s.push_str("[");
        push_dec(&mut s, i as u64);
        s.push_str("]");
    }
    s
}

/// A text that is there, trimmed.
pub fn filled_text(s: &Option<String>) -> (r: Option<String>)
    ensures
        text_opt(r) == filled(*s),
{
    match s {
        Some(t) => {
            let c = chars_of(t.as_str());
            let v = trim_of(&c);
            if v.len() > 0 {
                Some(string_of(v))
            } else {
                None
            }
        },
        None => None,
    }
}

fn push_optional(
    params: &mut Vec<(String, String)>,
    base: &str,
    value: Option<String>,
    batch: Option<(usize, i64)>,
    Ghost(before): Ghost<Seq<ParamView>>,
    Ghost(done): Ghost<Seq<ParamView>>,
)
    requires
        param_views(old(params)@) == before + done,
    ensures
        param_views(final(params)@) == before + (done + optional_param(
            base@,
            text_opt(value),
            batch,
        )),
{
    let ghost more = optional_param(base@, text_opt(value), batch);
    assert(before + done + more == before + (done + more));
    assert(before + done + Seq::<ParamView>::empty() == before + done);
    if let Some(v) = value {
        push_param(params, index_name(base, batch).as_str(), v.as_str());
    }
}

/// Appends track fields; `batch` = `(index, timestamp)` for `track.scrobble`
/// array parameters (`artist[i]`...), `None` for plain names.
pub fn push_track_params(
    params: &mut Vec<(String, String)>,
    t: &ScrobbleTrack,
    batch: Option<(usize, i64)>,
)
    ensures
        param_views(final(params)@) == param_views(old(params)@) + track_params(*t, batch),
{
    let ghost before = param_views(params@);
    let ghost p0 = seq![
        param(indexed("artist"@, batch), t.artist@),
        param(indexed("track"@, batch), t.title@),
    ];
    push_param(params, index_name("artist", batch).as_str(), t.artist.as_str());
    push_param(params, index_name("track", batch).as_str(), t.title.as_str());
    assert(param_views(params@) == before + p0);
    let stamp: Option<String> = match batch {
        Some((_, ts)) => Some(int_string(ts)),
        None => None,
    };
    let ghost p1 = p0 + optional_param("timestamp"@, text_opt(stamp), batch);
    push_optional(params, "timestamp", stamp, batch, Ghost(before), Ghost(p0));
    let ghost p2 = p1 + optional_param("album"@, filled(t.album), batch);
    push_optional(params, "album", filled_text(&t.album), batch, Ghost(before), Ghost(p1));
    let ghost p3 = p2 + optional_param("albumArtist"@, filled(t.album_artist), batch);
    push_optional(params, "albumArtist", filled_text(&t.album_artist), batch, Ghost(before), Ghost(p2));
    let ghost p4 = p3 + optional_param("mbid"@, filled(t.mbid), batch);
    push_optional(params, "mbid", filled_text(&t.mbid), batch, Ghost(before), Ghost(p3));
    let number: Option<String> = match t.track_number {
        Some(n) => Some(dec_string(n as u64)),
        None => None,
    };
    let ghost p5 = p4 + optional_param("trackNumber"@, text_opt(number), batch);
    push_optional(params, "trackNumber", number, batch, Ghost(before), Ghost(p4));
    let duration: Option<String> = if t.duration_ms > 0 {
        Some(dec_string(t.duration_ms / 1000))
    } else {
        None
    };
    let ghost p6 = p5 + optional_param("duration"@, text_opt(duration), batch);
    push_optional(params, "duration", duration, batch, Ghost(before), Ghost(p5));
    assert(p6 == track_params(*t, batch));
}

/// The parameters of the first `n` scrobbles of a batch.
pub open spec fn batch_params(batch: Seq<Scrobble>, n: nat) -> Seq<ParamView>
    decreases n,
{
    if n == 0 || n > batch.len() {
        Seq::empty()
    } else {
        batch_params(batch, (n - 1) as nat) + track_params(
            batch[n - 1].track,
            Some(((n - 1) as usize, batch[n - 1].started_at_unix)),
        )
    }
}

/// A signed method call.
pub open spec fn signed_call(
    method: Seq<char>,
    params: Seq<ParamView>,
    key: Seq<char>,
    secret: Seq<char>,
) -> Seq<ParamView> {
    let named = params + seq![param("method"@, method), param("api_key"@, key)];
    named + seq![param("api_sig"@, signature(named, secret)), param("format"@, "json"@)]
}

impl LastFm {
    /// The user's API key.
    pub closed spec fn key(&self) -> Seq<char> {
        self.api_key@
    }

    /// The user's shared secret.
    pub closed spec fn secret(&self) -> Seq<char> {
        self.shared_secret@
    }

    /// Whether both credentials are there.
    pub open spec fn configured(&self) -> bool {
        self.key().len() > 0 && self.secret().len() > 0
    }

    pub fn new(api_key: &str, shared_secret: &str) -> (r: LastFm)
        ensures
            r.key() == trim(api_key@),
            r.secret() == trim(shared_secret@),
    {
        LastFm { api_key: trimmed(api_key), shared_secret: trimmed(shared_secret) }
    }

    /// Page where the user grants access to `token`.
    pub fn auth_url(&self, token: &str) -> (s: String)
        ensures
            s@ == "https://www.last.fm/api/auth/?api_key="@ + self.key() + "&token="@ + token@,
    {
        let mut s = copy_str("https://www.last.fm/api/auth/?api_key=");
        s.push_str(self.api_key.as_str());
        s.push_str("&token=");
        s.push_str(token);
        s
    }

    /// The form to post for a method call: the parameters with the method, the
    /// key, the signature and the format.
    pub fn call(&self, method: &str, params: Vec<(String, String)>) -> (r: Result<
        Vec<(String, String)>,
        OnlineError,
    >)
        ensures
            match r {
                Ok(form) => self.configured() && param_views(form@) == signed_call(
                    method@,
                    param_views(params@),
                    self.key(),
                    self.secret(),
                ),
                Err(e) => !self.configured() && e is NotConfigured,
            },
    {
        if self.api_key.as_str().is_empty() || self.shared_secret.as_str().is_empty() {
            return Err(OnlineError::NotConfigured);
        }
        let ghost given = param_views(params@);
        let mut form = params;
        push_param(&mut form, "method", method);
        push_param(&mut form, "api_key", self.api_key.as_str());
        assert(param_views(form@) == given + seq![
            param("method"@, method@),
            param("api_key"@, self.key()),
        ]);
        let sig = api_signature(form.as_slice(), self.shared_secret.as_str());
        let ghost named = param_views(form@);
        push_param(&mut form, "api_sig", sig.as_str());
        push_param(&mut form, "format", "json");
        assert(param_views(form@) == named + seq![
            param("api_sig"@, sig@),
            param("format"@, "json"@),
        ]);
        Ok(form)
    }

    /// The form that asks for a token.
    pub fn get_token(&self) -> (r: Result<Vec<(String, String)>, OnlineError>)
        ensures
            match r {
                Ok(form) => self.configured() && param_views(form@) == signed_call(
                    "auth.getToken"@,
                    Seq::empty(),
                    self.key(),
                    self.secret(),
                ),
                Err(e) => !self.configured() && e is NotConfigured,
            },
    {
        let none: Vec<(String, String)> = Vec::new();
        assert(param_views(none@) == Seq::<ParamView>::empty());
        self.call("auth.getToken", none)
    }

    /// The form that asks for the session of an approved token.
    pub fn get_session(&self, token: &str) -> (r: Result<Vec<(String, String)>, OnlineError>)
        ensures
            match r {
                Ok(form) => self.configured() && param_views(form@) == signed_call(
                    "auth.getSession"@,
                    seq![param("token"@, token@)],
                    self.key(),
                    self.secret(),
                ),
                Err(e) => !self.configured() && e is NotConfigured,
            },
    {
        let mut params: Vec<(String, String)> = Vec::new();
        assert(param_views(params@) == Seq::<ParamView>::empty());
        push_param(&mut params, "token", token);
        assert(param_views(params@) == seq![param("token"@, token@)]);
        self.call("auth.getSession", params)
    }

    /// The form that says what is playing.
    pub fn update_now_playing(&self, session_key: &str, track: &ScrobbleTrack) -> (r: Result<
        Vec<(String, String)>,
        OnlineError,
    >)
        ensures
            match r {
                Ok(form) => self.configured() && param_views(form@) == signed_call(
                    "track.updateNowPlaying"@,
                    seq![param("sk"@, session_key@)] + track_params(*track, None),
                    self.key(),
                    self.secret(),
                ),
                Err(e) => !self.configured() && e is NotConfigured,
            },
    {
        let mut params: Vec<(String, String)> = Vec::new();
        assert(param_views(params@) == Seq::<ParamView>::empty());
        push_param(&mut params, "sk", session_key);
        assert(param_views(params@) == seq![param("sk"@, session_key@)]);
        push_track_params(&mut params, track, None);
        self.call("track.updateNowPlaying", params)
    }

    /// The form that submits a batch of up to [`MAX_BATCH`] scrobbles.
    pub fn scrobble_batch(&self, session_key: &str, batch: &[Scrobble]) -> (r: Result<
        Vec<(String, String)>,
        OnlineError,
    >)
        ensures
            match r {
                Ok(form) => self.configured() && param_views(form@) == signed_call(
                    "track.scrobble"@,
                    seq![param("sk"@, session_key@)] + batch_params(batch@, batch@.len()),
                    self.key(),
                    self.secret(),
                ),
                Err(e) => !self.configured() && e is NotConfigured,
            },
    {
        let mut params: Vec<(String, String)> = Vec::new();
        assert(param_views(params@) == Seq::<ParamView>::empty());
        push_param(&mut params, "sk", session_key);
        let ghost head = seq![param("sk"@, session_key@)];
        assert(param_views(params@) == head);
        assert(head + Seq::<ParamView>::empty() == head);
        for i in 0..batch.len()
            invariant
                param_views(params@) == head + batch_params(batch@, i as nat),
        {
            let ghost one = track_params(
                batch@[i as int].track,
                Some((i, batch@[i as int].started_at_unix)),
            );
            push_track_params(
                &mut params,
                &batch[i].track,
                Some((i, batch[i].started_at_unix)),
            );
            assert(head + batch_params(batch@, i as nat) + one == head + (batch_params(
                batch@,
                i as nat,
            ) + one));
        }
        self.call("track.scrobble", params)
    }

    /// The forms that submit scrobbles, in batches of [`MAX_BATCH`]. Nothing to
    /// submit needs no account.
    pub fn scrobble(&self, session_key: &str, scrobbles: &[Scrobble]) -> (r: Result<
        Vec<Vec<(String, String)>>,
        OnlineError,
    >)
        ensures
            match r {
                Ok(forms) => {
                    let chunks = chunks_from(scrobbles@, MAX_BATCH as nat, 0);
                    &&& scrobbles@.len() == 0 || self.configured()
                    &&& forms@.len() == chunks.len()
                    &&& forall|k: int|
                        0 <= k < forms@.len() ==> self.submits(
                            #[trigger] forms@[k]@,
                            session_key@,
                            chunks[k],
                        )
                },
                Err(e) => scrobbles@.len() > 0 && !self.configured() && e is NotConfigured,
            },
    {
        let ghost all = chunks_from(scrobbles@, MAX_BATCH as nat, 0);
        let ghost mut done = Seq::<Seq<Scrobble>>::empty();
        let n = scrobbles.len();
        let mut forms: Vec<Vec<(String, String)>> = Vec::new();
        let mut from: usize = 0;
        assert(done + all == all);
        while from < n
            invariant
                n == scrobbles@.len(),
                from <= n,
                from > 0 ==> self.configured(),
                done + chunks_from(scrobbles@, MAX_BATCH as nat, from as int) == all,
                forms@.len() == done.len(),
                forall|k: int|
                    0 <= k < forms@.len() ==> self.submits(
                        #[trigger] forms@[k]@,
                        session_key@,
                        done[k],
                    ),
            decreases n - from,
        {
            let end: usize = if n - from > MAX_BATCH {
                from + MAX_BATCH
            } else {
                n
            };
            let chunk = slice_subrange(scrobbles, from, end);
            match self.scrobble_batch(session_key, chunk) {
                Ok(form) => {
                    let ghost before = done;
                    forms.push(form);
                    proof {
                        let rest = chunks_from(scrobbles@, MAX_BATCH as nat, end as int);
                        done = before.push(chunk@);
                        assert(before + (seq![chunk@] + rest) == done + rest);
                    }
                },
                Err(e) => {
                    return Err(e);
                },
            }
            from = end;
        }
        assert(done + Seq::<Seq<Scrobble>>::empty() == done);
        Ok(forms)
    }

    /// Whether a form submits a batch.
    pub open spec fn submits(
        &self,
        form: Seq<(String, String)>,
        session_key: Seq<char>,
        batch: Seq<Scrobble>,
    ) -> bool {
        param_views(form) == signed_call(
            "track.scrobble"@,
            seq![param("sk"@, session_key)] + batch_params(batch, batch.len()),
            self.key(),
            self.secret(),
        )
    }
}

// ---------------------------------------------------------------------------
// Laws
// ---------------------------------------------------------------------------

/// A parameter that is not signed does not change a signature, wherever among
/// the others it stands.
pub proof fn unsigned_params_do_not_matter(
    params: Seq<ParamView>,
    extra: ParamView,
    at: int,
    secret: Seq<char>,
)
    requires
        !is_signed(extra),
        0 <= at <= params.len(),
    ensures
        signed_text(params.insert(at, extra), secret) == signed_text(params, secret),
        signature(params.insert(at, extra), secret) == signature(params, secret),
{
    lemma_signed_around(params, extra, at, params.insert(at, extra).len());
}

proof fn lemma_signed_around(params: Seq<ParamView>, extra: ParamView, at: int, n: nat)
    requires
        !is_signed(extra),
        0 <= at <= params.len(),
        n <= params.len() + 1,
    ensures
        n <= at ==> signed_params(params.insert(at, extra), n) == signed_params(params, n),
        n > at ==> signed_params(params.insert(at, extra), n) == signed_params(
            params,
            (n - 1) as nat,
        ),
    decreases n,
{
    if n > 0 {
        let with = params.insert(at, extra);
        lemma_signed_around(params, extra, at, (n - 1) as nat);
        if n - 1 < at {
            assert(with[n - 1] == params[n - 1]);
        } else if n - 1 == at {
            assert(with[n - 1] == extra);
        } else {
            assert(with[n - 1] == params[n - 2]);
        }
    }
}

/// Whether parameters of one name have one value.
pub open spec fn one_value_each(params: Seq<ParamView>) -> bool {
    forall|i: int, j: int|
        0 <= i < params.len() && 0 <= j < params.len() && (#[trigger] params[i]).name == (
        #[trigger] params[j]).name ==> params[i] == params[j]
}

/// The order in which parameters are given does not change a signature.
pub proof fn order_does_not_matter(a: Seq<ParamView>, b: Seq<ParamView>, secret: Seq<char>)
    requires
        a.to_multiset() == b.to_multiset(),
        one_value_each(a),
    ensures
        signed_text(a, secret) == signed_text(b, secret),
        signature(a, secret) == signature(b, secret),
{
    let sa = signed_params(a, a.len());
    let sb = signed_params(b, b.len());
    lemma_signed_count(a, a.len());
    lemma_signed_count(b, b.len());
    assert(a.subrange(0, a.len() as int) == a);
    assert(b.subrange(0, b.len() as int) == b);
    assert(sa.to_multiset() =~= sb.to_multiset());
    assert(total_preorder(name_order())) by {
        assert forall|x: ParamView, y: ParamView| #[trigger] name_order()(x, y) || name_order()(
            y,
            x,
        ) by {
            text_order_is_total(x.name, y.name);
        }
        assert forall|x: ParamView, y: ParamView, z: ParamView| #[trigger]
            name_order()(x, y) && #[trigger] name_order()(y, z) implies name_order()(x, z) by {
            text_order_is_transitive(x.name, y.name, z.name);
        }
    }
    sorting_is_stable(sa, name_order());
    sorting_is_stable(sb, name_order());
    let ta = sort_stable(sa, name_order());
    let tb = sort_stable(sb, name_order());
    assert forall|i: int, j: int|
        0 <= i < ta.len() && 0 <= j < ta.len() && name_order()(#[trigger] ta[i], #[trigger] ta[j])
            && name_order()(ta[j], ta[i]) implies ta[i] == ta[j] by {
        text_order_is_total(ta[i].name, ta[j].name);
        lemma_member(ta, i);
        lemma_member(ta, j);
        a.to_multiset_ensures();
        assert(a.contains(ta[i]));
        assert(a.contains(ta[j]));
    }
    order_is_unique(ta, tb, name_order());
}

proof fn lemma_member(s: Seq<ParamView>, i: int)
    requires
        0 <= i < s.len(),
    ensures
        s.to_multiset().count(s[i]) > 0,
{
    s.to_multiset_ensures();
    assert(s.contains(s[i]));
}

proof fn lemma_signed_count(params: Seq<ParamView>, n: nat)
    requires
        n <= params.len(),
    ensures
        forall|x: ParamView| #[trigger]
            signed_params(params, n).to_multiset().count(x) == (if is_signed(x) {
                params.subrange(0, n as int).to_multiset().count(x)
            } else {
                0
            }),
    decreases n,
{
    if n == 0 {
        assert(params.subrange(0, 0) == Seq::<ParamView>::empty());
        Seq::<ParamView>::empty().to_multiset_ensures();
        vstd::seq_lib::lemma_multiset_commutative(
            Seq::<ParamView>::empty(),
            Seq::<ParamView>::empty(),
        );
        assert(Seq::<ParamView>::empty().to_multiset().len() == 0);
    } else {
        let m = (n - 1) as nat;
        lemma_signed_count(params, m);
        let front = params.subrange(0, m as int);
        assert(params.subrange(0, n as int) == front.push(params[n - 1]));
        front.to_multiset_ensures();
        signed_params(params, m).to_multiset_ensures();
    }
}

} // verus!
