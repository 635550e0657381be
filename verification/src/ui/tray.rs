//! The tray icon's title and menu.

use vstd::prelude::*;

use crate::text::{concat2, copy_str};
use crate::ui::text::{t, translated};

verus! {

#[derive(Debug)]
pub struct Tray {
    pub playing: bool,
    pub title: String,
    pub visible: bool,
}

/// What a menu entry does.
#[derive(Debug, Clone, Copy, PartialEq, Eq, Structural)]
pub enum TrayAction {
    ToggleWindow,
    TogglePlay,
    Next,
    Previous,
    Quit,
}

/// A menu entry.
#[derive(Debug)]
pub struct TrayEntry {
    pub label: &'static str,
    pub icon: &'static str,
    pub action: TrayAction,
    /// A line stands above it.
    pub separated: bool,
}

impl Tray {
    pub fn new() -> (r: Tray)
        ensures
            !r.playing,
            r.title@.len() == 0,
            r.visible,
    {
        Tray { playing: false, title: String::new(), visible: true }
    }

    /// The name of the icon: with what plays, if something does.
    pub fn title(&self) -> (s: String)
        ensures
            s@ == (if self.title@.len() == 0 {
                "ricercar"@
            } else {
                "ricercar — "@ + self.title@
            }),
    {
        if self.title.as_str().is_empty() {
            copy_str("ricercar")
        } else {
            concat2("ricercar — ", self.title.as_str())
        }
    }

    fn entry(
        en: &'static str,
        icon: &'static str,
        action: TrayAction,
        separated: bool,
        french: bool,
    ) -> (e: TrayEntry)
        ensures
            is_entry(e, en@, icon@, action, separated, french),
    {
        TrayEntry { label: t(en, french), icon, action, separated }
    }

    /// The menu.
    pub fn menu(&self, french: bool) -> (v: Vec<TrayEntry>)
        ensures
            v@.len() == 5,
            is_entry(
                v@[0],
                if self.visible {
                    "Hide window"@
                } else {
                    "Show window"@
                },
                ""@,
                TrayAction::ToggleWindow,
                false,
                french,
            ),
            self.playing ==> is_entry(
                v@[1],
                "Pause"@,
                "media-playback-pause"@,
                TrayAction::TogglePlay,
                true,
                french,
            ),
            !self.playing ==> is_entry(
                v@[1],
                "Play"@,
                "media-playback-start"@,
                TrayAction::TogglePlay,
                true,
                french,
            ),
            is_entry(v@[2], "Next"@, "media-skip-forward"@, TrayAction::Next, false, french),
            is_entry(
                v@[3],
                "Previous"@,
                "media-skip-backward"@,
                TrayAction::Previous,
                false,
                french,
            ),
            is_entry(v@[4], "Quit"@, "application-exit"@, TrayAction::Quit, true, french),
    {
        let mut v: Vec<TrayEntry> = Vec::new();
        let window = if self.visible {
            "Hide window"
        } else {
            "Show window"
        };
        v.push(Tray::entry(window, "", TrayAction::ToggleWindow, false, french));
        if self.playing {
            v.push(
                Tray::entry("Pause", "media-playback-pause", TrayAction::TogglePlay, true, french),
            );
        } else {
            v.push(
                Tray::entry("Play", "media-playback-start", TrayAction::TogglePlay, true, french),
            );
        }
        v.push(Tray::entry("Next", "media-skip-forward", TrayAction::Next, false, french));
        v.push(Tray::entry("Previous", "media-skip-backward", TrayAction::Previous, false, french));
        v.push(Tray::entry("Quit", "application-exit", TrayAction::Quit, true, french));
        v
    }
}

/// Whether a menu entry is the one that is meant.
pub open spec fn is_entry(
    e: TrayEntry,
    en: Seq<char>,
    icon: Seq<char>,
    action: TrayAction,
    separated: bool,
    french: bool,
) -> bool {
    e.label@ == translated(en, french) && e.icon@ == icon && e.action == action && e.separated
        == separated
}

} // verus!
