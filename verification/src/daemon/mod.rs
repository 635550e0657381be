//! Startup of the headless daemon and the desktop application: arguments, the
//! settings that they override, and scrobbling.

pub mod args;
pub mod promises;
pub mod scrobbler;
pub mod startup;
