//! What is common to all requests.

use vstd::prelude::*;
use vstd::slice::slice_subrange;
use vstd::string::*;
use vstd::utf8::{encode_scalar, encode_utf8};

use crate::online::error::OnlineError;
use crate::order::{chars_le, insert_sorted, insert_stable, text_le};
use crate::text::{chars_of, concat2, copy_str, string_of};

verus! {

/// User-Agent sent with every request. MusicBrainz, LRCLIB and Radio Browser
/// all ask clients to identify themselves with a name, version and contact.
pub const USER_AGENT: &'static str = "ricercar/0.3 ( https://github.com/pata27/ricercar )";

/// Error bodies are only kept for diagnostics; cap what we carry around.
pub const MAX_ERROR_BODY: usize = 512;

/// How many characters from the front of `s` fit in `max` bytes.
pub open spec fn fitting(s: Seq<char>, max: nat) -> nat
    decreases s.len(),
{
    if s.len() == 0 || encode_scalar(s[0] as u32).len() > max {
        0
    } else {
        1 + fitting(s.drop_first(), (max - encode_scalar(s[0] as u32).len()) as nat)
    }
}

/// `s`, or as much of it as fits in `max` bytes with an ellipsis behind it.
pub open spec fn truncated(s: Seq<char>, max: nat) -> Seq<char> {
    if encode_utf8(s).len() > max {
        s.subrange(0, fitting(s, max) as int) + "…"@
    } else {
        s
    }
}

fn width(c: char) -> (n: usize)
    ensures
        n == encode_scalar(c as u32).len(),
        1 <= n <= 4,
{
    let v: u32 = c as u32;
    if v < 0x80 {
        1
    } else if v < 0x800 {
        2
    } else if v < 0x10000 {
        3
    } else {
        4
    }
}

/// Cuts a text to a number of bytes, between characters.
pub fn truncate(s: String, max: usize) -> (r: String)
    ensures
        r@ == truncated(s@, max as nat),
{
    if s.as_str().as_bytes().len() <= max {
        return s;
    }
    let c = chars_of(s.as_str());
    let mut n: usize = 0;
    let mut left: usize = max;
    assert(c@.subrange(0, c@.len() as int) == c@);
    while n < c.len() && width(c[n]) <= left
        invariant
            n <= c.len(),
            left <= max,
            n + fitting(c@.subrange(n as int, c@.len() as int), left as nat) == fitting(
                c@,
                max as nat,
            ),
        decreases c.len() - n,
    {
        assert(c@.subrange(n as int, c@.len() as int).drop_first() == c@.subrange(
            n + 1,
            c@.len() as int,
        ));
        left = left - width(c[n]);
        n = n + 1;
    }
    let kept = string_of(slice_subrange(c.as_slice(), 0, n));
    concat2(kept.as_str(), "…")
}

/// A request parameter.
pub struct ParamView {
    pub name: Seq<char>,
    pub value: Seq<char>,
}

/// The contents of a list of parameters.
pub open spec fn param_views(v: Seq<(String, String)>) -> Seq<ParamView> {
    Seq::new(v.len(), |i: int| ParamView { name: v[i].0@, value: v[i].1@ })
}

pub open spec fn param(name: Seq<char>, value: Seq<char>) -> ParamView {
    ParamView { name, value }
}

/// Appends a parameter.
pub fn push_param(v: &mut Vec<(String, String)>, name: &str, value: &str)
    ensures
        param_views(final(v)@) == param_views(old(v)@).push(param(name@, value@)),
{
    let ghost before = v@;
    v.push((copy_str(name), copy_str(value)));
    assert(param_views(v@) == param_views(before).push(param(name@, value@)));
}

/// Orders parameters by name.
pub open spec fn name_order() -> spec_fn(ParamView, ParamView) -> bool {
    |a: ParamView, b: ParamView| text_le(a.name, b.name)
}

fn param_le(a: &(String, String), b: &(String, String)) -> (r: bool)
    ensures
        r == text_le(a.0@, b.0@),
{
    chars_le(&chars_of(a.0.as_str()), &chars_of(b.0.as_str()))
}

/// Inserts a parameter behind those whose name is not greater.
pub fn insert_param(v: &mut Vec<(String, String)>, name: &str, value: &str)
    ensures
        param_views(final(v)@) == insert_stable(
            param_views(old(v)@),
            param(name@, value@),
            name_order(),
        ),
{
    let ghost before = v@;
    let ghost view = |p: (String, String)| param(p.0@, p.1@);
    insert_sorted::<_, ParamView, _>(
        v,
        (copy_str(name), copy_str(value)),
        param_le,
        Ghost(view),
        Ghost(name_order()),
    );
    assert(before.map_values(view) == param_views(before));
    assert(v@.map_values(view) == param_views(v@));
}

/// A request to make: where, and with what query.
#[derive(Debug, PartialEq, Eq)]
pub struct Request {
    pub url: String,
    pub query: Vec<(String, String)>,
}

/// Whether a request is made to `url` with some parameters.
pub open spec fn asks(r: Request, url: Seq<char>, query: Seq<ParamView>) -> bool {
    r.url@ == url && param_views(r.query@) == query
}

/// A request without a query.
pub fn plain_request(url: String) -> (r: Request)
    ensures
        asks(r, url@, Seq::empty()),
{
    let query: Vec<(String, String)> = Vec::new();
    assert(param_views(query@) == Seq::<ParamView>::empty());
    Request { url, query }
}

impl Request {
    /// The request with one more parameter.
    pub fn with(self, name: &str, value: &str) -> (r: Request)
        ensures
            asks(r, self.url@, param_views(self.query@).push(param(name@, value@))),
    {
        let mut query = self.query;
        push_param(&mut query, name, value);
        Request { url: self.url, query }
    }
}

/// What a transport came back with.
#[derive(Debug)]
pub enum Outcome {
    /// The body of a successful answer.
    Body(String),
    Status { status: u16, body: String },
    Transport(String),
}

/// Converts an outcome into our error model (non-2xx becomes `Http`).
pub fn send(outcome: Outcome) -> (r: Result<String, OnlineError>)
    ensures
        match outcome {
            Outcome::Body(b) => r == Ok::<String, OnlineError>(b),
            Outcome::Status { status, body } => r matches Err(
                OnlineError::Http { status: st, body: b },
            ) && st == status && b@ == truncated(body@, MAX_ERROR_BODY as nat),
            Outcome::Transport(t) => r == Err::<String, OnlineError>(OnlineError::Network(t)),
        },
{
    match outcome {
        Outcome::Body(b) => Ok(b),
        Outcome::Status { status, body } => Err(
            OnlineError::Http { status, body: truncate(body, MAX_ERROR_BODY) },
        ),
        Outcome::Transport(t) => Err(OnlineError::Network(t)),
    }
}

pub fn is_not_found(err: &OnlineError) -> (r: bool)
    ensures
        r == (err matches OnlineError::Http { status, .. } && status == 404),
{
    match err {
        OnlineError::Http { status, .. } => *status == 404,
        _ => false,
    }
}

} // verus!
