//! When the interface loads again what it shows.

use vstd::prelude::*;

use crate::controller::state::Repeat;

verus! {

/// How long changes of the library settle before they are shown.
pub const SETTLE_MS: u64 = 600;

/// How long they settle while a scan runs.
pub const SCAN_SETTLE_MS: u64 = 3000;

/// What is known of the library's changes. Times are milliseconds of a clock
/// that never goes back.
#[derive(Debug, Clone, Copy, PartialEq, Eq, Structural)]
pub struct LibraryWatch {
    /// The revision that was seen last.
    pub seen: u64,
    /// Since when a change is waiting to be shown.
    pub changed_at: Option<u64>,
    pub was_scanning: bool,
}

/// Since when a change is waiting, at `now`.
pub open spec fn waiting_since(w: LibraryWatch, rev: u64, forced: bool, now: u64) -> Option<u64> {
    if (rev != w.seen || forced) && w.changed_at is None {
        Some(now)
    } else {
        w.changed_at
    }
}

/// Whether what is shown is loaded again: a change has settled, or a scan has
/// just finished.
pub open spec fn reloads(
    w: LibraryWatch,
    rev: u64,
    forced: bool,
    scanning: bool,
    now: u64,
) -> bool {
    let settled = waiting_since(w, rev, forced, now) matches Some(t) && now - t > (if scanning {
        SCAN_SETTLE_MS
    } else {
        SETTLE_MS
    });
    settled || (w.was_scanning && !scanning)
}

impl LibraryWatch {
    pub fn new(rev: u64) -> (w: LibraryWatch)
        ensures
            w == (LibraryWatch { seen: rev, changed_at: None, was_scanning: false }),
    {
        LibraryWatch { seen: rev, changed_at: None, was_scanning: false }
    }

    /// Takes a look at the library. The result says whether to load again.
    pub fn tick(&mut self, rev: u64, forced: bool, scanning: bool, now: u64) -> (reload: bool)
        ensures
            reload == reloads(*old(self), rev, forced, scanning, now),
            *final(self) == (LibraryWatch {
                seen: rev,
                changed_at: if reload {
                    None
                } else {
                    waiting_since(*old(self), rev, forced, now)
                },
                was_scanning: scanning,
            }),
    {
        if rev != self.seen || forced {
            self.seen = rev;
            if self.changed_at.is_none() {
                self.changed_at = Some(now);
            }
        }
        let limit: u64 = if scanning {
            SCAN_SETTLE_MS
        } else {
            SETTLE_MS
        };
        let settled = match self.changed_at {
            Some(t) => now > t && now - t > limit,
            None => false,
        };
        let finished = self.was_scanning && !scanning;
        self.was_scanning = scanning;
        if settled || finished {
            self.changed_at = None;
            true
        } else {
            false
        }
    }
}

/// A change is shown at last: once it has waited long enough, the next look
/// loads it.
pub proof fn a_change_is_shown(w: LibraryWatch, rev: u64, scanning: bool, now: u64)
    requires
        w.changed_at matches Some(t) && now - t > SCAN_SETTLE_MS,
    ensures
        reloads(w, rev, false, scanning, now),
{
}

/// A number of milliseconds as the interface holds it.
pub fn shown_ms(ms: u64) -> (r: i32)
    ensures
        r == (if ms <= i32::MAX {
            ms as i32
        } else {
            i32::MAX
        }),
{
    if ms <= 0x7fff_ffff {
        ms as i32
    } else {
        i32::MAX
    }
}

/// The number of a repeat mode.
pub fn repeat_index(r: Repeat) -> (i: i32)
    ensures
        i == (match r {
            Repeat::Off => 0i32,
            Repeat::All => 1i32,
            Repeat::One => 2i32,
        }),
{
    match r {
        Repeat::Off => 0,
        Repeat::All => 1,
        Repeat::One => 2,
    }
}

/// Waits until typing pauses: of several requests only the last one counts.
#[derive(Debug, Clone, Copy, PartialEq, Eq, Structural)]
pub struct Debounce {
    pub serial: u64,
}

impl Debounce {
    /// A request; the result is its number.
    pub fn request(&mut self) -> (n: u64)
        ensures
            n == (old(self).serial as int + 1) % 0x1_0000_0000_0000_0000,
            final(self).serial == n,
    {
        self.serial = self.serial.wrapping_add(1);
        self.serial
    }

    /// Whether the request of a number is still the last one.
    pub fn is_current(&self, n: u64) -> (r: bool)
        ensures
            r == (self.serial == n),
    {
        self.serial == n
    }
}

} // verus!
