//! Online integrations, built exclusively on open, documented public APIs.
//! What is asked, what the answers mean, and what is kept of them; the
//! requests themselves are made elsewhere.

pub mod coverart;
pub mod digest;
pub mod error;
pub mod http;
pub mod lastfm;
pub mod listenbrainz;
pub mod lrclib;
pub mod lyrics;
pub mod lyrics_cache;
pub mod promises;
pub mod radio;
pub mod scrobble;
pub mod sending;
