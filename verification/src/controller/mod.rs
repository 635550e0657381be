//! The playback controller: the queue, and what drives the engine.

pub mod bridge;
pub mod control;
pub mod laws;
pub mod model;
pub mod promises;
pub mod queue;
pub mod session;
pub mod state;
