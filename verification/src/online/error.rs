//! Error type shared by every online integration.

use vstd::prelude::*;

use crate::text::{concat2, copy_str, dec, push_dec};

verus! {

/// Errors returned by online integrations.
#[derive(Debug, Clone)]
pub enum OnlineError {
    /// The server answered with a non-success HTTP status.
    Http { status: u16, body: String },
    /// DNS, connection, TLS or timeout failure: worth retrying later.
    Network(String),
    /// The response (or a local file) could not be decoded.
    Parse(String),
    /// Credentials were rejected, or authorization is still pending.
    Auth(String),
    /// The service lacks the credentials it needs (empty token/key).
    NotConfigured,
    /// Local filesystem failure (queue or cache files).
    Io(String),
}

/// Whether the same request may succeed later.
pub open spec fn transient(e: OnlineError) -> bool {
    match e {
        OnlineError::Network(_) => true,
        OnlineError::Http { status, .. } => status == 429 || status >= 500,
        _ => false,
    }
}

impl OnlineError {
    /// Whether retrying the same request later may succeed (offline, server
    /// overloaded, rate limited). Used to decide whether to queue a scrobble.
    pub fn is_transient(&self) -> (r: bool)
        ensures
            r == transient(*self),
    {
        match self {
            OnlineError::Network(_) => true,
            OnlineError::Http { status, .. } => *status == 429 || *status >= 500,
            _ => false,
        }
    }

    /// The text of `message`.
    pub open spec fn text(&self) -> Seq<char> {
        match self {
            OnlineError::Http { status, body } => "HTTP "@ + dec(*status as nat) + ": "@ + body@,
            OnlineError::Network(s) => "network error: "@ + s@,
            OnlineError::Parse(s) => "parse error: "@ + s@,
            OnlineError::Auth(s) => "authentication error: "@ + s@,
            OnlineError::NotConfigured => "service not configured"@,
            OnlineError::Io(s) => "I/O error: "@ + s@,
        }
    }

    /// The error in words.
    pub fn message(&self) -> (s: String)
        ensures
            s@ == self.text(),
    {
        match self {
            OnlineError::Http { status, body } => {
                let mut s = copy_str("HTTP ");
                push_dec(&mut s, *status as u64);
                s.push_str(": ");
                s.push_str(body.as_str());
                s
            },
            OnlineError::Network(s) => concat2("network error: ", s.as_str()),
            OnlineError::Parse(s) => concat2("parse error: ", s.as_str()),
            OnlineError::Auth(s) => concat2("authentication error: ", s.as_str()),
            OnlineError::NotConfigured => copy_str("service not configured"),
            OnlineError::Io(s) => concat2("I/O error: ", s.as_str()),
        }
    }
}

} // verus!
