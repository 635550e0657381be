//! The music library: tags, tracks, scans, playlists, search.

pub mod covers;
pub mod meta;
pub mod path_index;
pub mod playlists;
pub mod promises;
pub mod scan;
pub mod search;
pub mod tracks;
pub mod watch;
