//! Formats, devices, streams and the playback engine.

pub mod device;
pub mod engine;
pub mod error;
pub mod fmt;
pub mod gain;
pub mod http;
pub mod icy;
pub mod laws;
pub mod player;
pub mod promises;
pub mod sink;
pub mod stream;
