//! When a change in the watched directories calls for a scan.

use vstd::prelude::*;

verus! {

/// How long changes settle before a scan: copies should be finished before
/// half-written files are tagged.
pub const SETTLE_MS: u64 = 2000;

/// What happened to a file.
#[derive(Debug, Clone, Copy, PartialEq, Eq, Structural)]
pub enum Change {
    Access,
    Create,
    Modify,
    Remove,
    Other,
}

/// What was heard of the watched directories.
#[derive(Debug, Clone, Copy, PartialEq, Eq, Structural)]
pub enum WatchEvent {
    Changed(Change),
    /// The watcher failed, or nothing happened for a while.
    Quiet,
    /// The watcher is gone.
    Gone,
}

/// What the watching thread does next.
#[derive(Debug, Clone, Copy, PartialEq, Eq, Structural)]
pub enum WatchStep {
    Wait,
    /// Let changes settle, forget what came meanwhile, and scan.
    Scan,
    Stop,
}

/// What the watching thread does on an event: what was created, modified or
/// removed calls for a scan.
pub fn watch_step(ev: WatchEvent) -> (s: WatchStep)
    ensures
        s == (match ev {
            WatchEvent::Changed(Change::Create) => WatchStep::Scan,
            WatchEvent::Changed(Change::Modify) => WatchStep::Scan,
            WatchEvent::Changed(Change::Remove) => WatchStep::Scan,
            WatchEvent::Changed(_) => WatchStep::Wait,
            WatchEvent::Quiet => WatchStep::Wait,
            WatchEvent::Gone => WatchStep::Stop,
        }),
{
    match ev {
        WatchEvent::Changed(c) => match c {
            Change::Create | Change::Modify | Change::Remove => WatchStep::Scan,
            Change::Access | Change::Other => WatchStep::Wait,
        },
        WatchEvent::Quiet => WatchStep::Wait,
        WatchEvent::Gone => WatchStep::Stop,
    }
}

} // verus!
