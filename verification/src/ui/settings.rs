//! The settings page.

use vstd::prelude::*;

use crate::audio::device::{DeviceInfo, DeviceKind};
use crate::config::{Config, NetworkConfig, ReplayGain, ScrobbleConfig, Theme};
use crate::online::error::OnlineError;
use crate::text::{
    chars_of, contains, contains_chars, copy_str, dec, lower_all, lower_chars, push_dec, same_chars,
    same_str, trim, trim_char_start, trim_char_start_of, trimmed,
};
use crate::ui::text::{t, translated};

verus! {

/// The accent colours to choose from.
pub const ACCENTS: [&'static str; 7] = [
    "#d4a35a",
    "#e0785a",
    "#d66a9c",
    "#8b7cf6",
    "#4f9cf0",
    "#3fb8a8",
    "#7cc46a",
];

// ---------------------------------------------------------------------------
// Choices
// ---------------------------------------------------------------------------

/// The place of a ReplayGain mode in the list.
pub open spec fn gain_index(r: ReplayGain) -> i32 {
    match r {
        ReplayGain::Off => 0,
        ReplayGain::Track => 1,
        ReplayGain::Album => 2,
        ReplayGain::Auto => 3,
    }
}

/// The ReplayGain mode at a place in the list.
pub open spec fn gain_at(i: i32) -> ReplayGain {
    if i == 1 {
        ReplayGain::Track
    } else if i == 2 {
        ReplayGain::Album
    } else if i == 3 {
        ReplayGain::Auto
    } else {
        ReplayGain::Off
    }
}

pub fn replaygain_index(r: ReplayGain) -> (i: i32)
    ensures
        i == gain_index(r),
{
    match r {
        ReplayGain::Off => 0,
        ReplayGain::Track => 1,
        ReplayGain::Album => 2,
        ReplayGain::Auto => 3,
    }
}

pub fn replaygain_at(i: i32) -> (r: ReplayGain)
    ensures
        r == gain_at(i),
{
    match i {
        1 => ReplayGain::Track,
        2 => ReplayGain::Album,
        3 => ReplayGain::Auto,
        _ => ReplayGain::Off,
    }
}

/// A ReplayGain mode that is shown is chosen again.
pub proof fn replaygain_survives_the_page(r: ReplayGain)
    ensures
        gain_at(gain_index(r)) == r,
{
}

/// Where an accent colour is among the choices from `i` on; the first choice
/// where it is none of them.
pub open spec fn accent_from(accent: Seq<char>, i: int) -> int
    decreases 7 - i,
{
    if i < 0 || i >= 7 {
        0
    } else if lower_all(ACCENTS[i]@) == lower_all(accent) {
        i
    } else {
        accent_from(accent, i + 1)
    }
}

/// Where an accent colour is among the choices, whatever the case of its
/// letters; the first choice where it is none of them.
pub fn accent_choice(accent: &str) -> (r: usize)
    ensures
        r == accent_from(accent@, 0),
        r < 7,
{
    let a = lower_chars(&chars_of(accent));
    for i in 0..7usize
        invariant
            a@ == lower_all(accent@),
            accent_from(accent@, 0) == accent_from(accent@, i as int),
    {
        if same_chars(&lower_chars(&chars_of(ACCENTS[i])), &a) {
            return i;
        }
    }
    0
}

/// The accent colour of a choice; choices beyond the list are at its ends.
pub fn accent_at(choice: i32) -> (s: &'static str)
    ensures
        s@ == ACCENTS[accent_place(choice)]@,
{
    let i: usize = if choice < 0 {
        0
    } else if choice > 6 {
        6
    } else {
        choice as usize
    };
    ACCENTS[i]
}

/// The value of a hexadecimal digit.
pub open spec fn hex_value(c: char) -> Option<int> {
    if '0' <= c <= '9' {
        Some(c as int - 48)
    } else if 'a' <= c <= 'f' {
        Some(c as int - 87)
    } else if 'A' <= c <= 'F' {
        Some(c as int - 55)
    } else {
        None
    }
}

/// A component of a colour: two hexadecimal digits.
pub open spec fn component(a: char, b: char) -> Option<u8> {
    match (hex_value(a), hex_value(b)) {
        (Some(x), Some(y)) => Some((16 * x + y) as u8),
        _ => None,
    }
}

/// A colour: six hexadecimal digits, with any number of `#` before them. A sign
/// in place of the first digit is read over, as the sign of a number is.
pub open spec fn colour(s: Seq<char>) -> Option<(u8, u8, u8)> {
    let h = trim_char_start(s, '#');
    if h.len() != 6 {
        None
    } else {
        let first = if h[0] == '+' {
            '0'
        } else {
            h[0]
        };
        match (component(first, h[1]), component(h[2], h[3]), component(h[4], h[5])) {
            (Some(r), Some(g), Some(b)) => Some((r, g, b)),
            _ => None,
        }
    }
}

fn hex_digit(c: char) -> (r: Option<u8>)
    ensures
        match hex_value(c) {
            Some(v) => r matches Some(x) && x == v && x < 16,
            None => r is None,
        },
{
    if '0' <= c && c <= '9' {
        Some((c as u32 - 48) as u8)
    } else if 'a' <= c && c <= 'f' {
        Some((c as u32 - 87) as u8)
    } else if 'A' <= c && c <= 'F' {
        Some((c as u32 - 55) as u8)
    } else {
        None
    }
}

fn read_component(a: char, b: char) -> (r: Option<u8>)
    ensures
        r == component(a, b),
{
    match (hex_digit(a), hex_digit(b)) {
        (Some(x), Some(y)) => Some(16 * x + y),
        _ => None,
    }
}

/// A colour as `#rrggbb`.
pub fn parse_hex(s: &str) -> (r: Option<(u8, u8, u8)>)
    ensures
        r == colour(s@),
{
    let c = chars_of(s);
    let h = trim_char_start_of(&c, '#');
    if h.len() != 6 {
        return None;
    }
    let first = if h[0] == '+' {
        '0'
    } else {
        h[0]
    };
    match (read_component(first, h[1]), read_component(h[2], h[3]), read_component(h[4], h[5])) {
        (Some(r), Some(g), Some(b)) => Some((r, g, b)),
        _ => None,
    }
}

// ---------------------------------------------------------------------------
// Statuses
// ---------------------------------------------------------------------------

/// What is said of the network renderer.
pub fn network_status(n: &NetworkConfig, port: Option<u16>, french: bool) -> (s: String)
    ensures
        s@ == (match port {
            Some(p) => if n.renderer {
                translated("Visible on the network as"@, french) + " “"@ + n.name@ + "” · "@
                    + translated("port"@, french) + " "@ + dec(p as nat)
            } else {
                translated("Renderer is off"@, french)
            },
            None => translated("Renderer is off"@, french),
        }),
{
    if let Some(p) = port {
        if n.renderer {
            let mut s = copy_str(t("Visible on the network as", french));
            s.push_str(" “");
            s.push_str(n.name.as_str());
            s.push_str("” · ");
            s.push_str(t("port", french));
            s.push_str(" ");
            push_dec(&mut s, p as u64);
            return s;
        }
    }
    copy_str(t("Renderer is off", french))
}

fn connected(user: &str, french: bool) -> (s: String)
    ensures
        s@ == translated("Connected as"@, french) + " "@ + user@,
{
    let mut s = copy_str(t("Connected as", french));
    s.push_str(" ");
    s.push_str(user);
    s
}

/// What is said of Last.fm.
pub fn lastfm_status(c: &ScrobbleConfig, french: bool) -> (s: String)
    ensures
        s@ == (if c.lastfm_session@.len() == 0 {
            ""@
        } else {
            translated("Connected as"@, french) + " "@ + c.lastfm_user@
        }),
{
    if c.lastfm_session.as_str().is_empty() {
        copy_str("")
    } else {
        connected(c.lastfm_user.as_str(), french)
    }
}

/// What is said of a ListenBrainz token that was checked.
pub fn listenbrainz_status(checked: &Result<Option<String>, OnlineError>, french: bool) -> (s:
    String)
    ensures
        s@ == (match *checked {
            Ok(Some(user)) => translated("Connected as"@, french) + " "@ + user@,
            Ok(None) => translated("Invalid token"@, french),
            Err(e) => translated("Network error"@, french) + ": "@ + e.text(),
        }),
{
    match checked {
        Ok(Some(user)) => connected(user.as_str(), french),
        Ok(None) => copy_str(t("Invalid token", french)),
        Err(e) => {
            let mut s = copy_str(t("Network error", french));
            s.push_str(": ");
            s.push_str(e.message().as_str());
            s
        },
    }
}

/// Whether both credentials of a Last.fm account were entered.
pub fn lastfm_ready(key: &str, secret: &str) -> (r: bool)
    ensures
        r == (trim(key@).len() > 0 && trim(secret@).len() > 0),
{
    !trimmed(key).as_str().is_empty() && !trimmed(secret).as_str().is_empty()
}

// ---------------------------------------------------------------------------
// Devices
// ---------------------------------------------------------------------------

/// An output device as the page shows it.
#[derive(Debug)]
pub struct DeviceRow {
    pub name: String,
    pub desc: String,
    pub hardware: bool,
    pub selected: bool,
}

/// The contents of a `DeviceRow`.
pub struct DeviceRowView {
    pub name: Seq<char>,
    pub desc: Seq<char>,
    pub hardware: bool,
    pub selected: bool,
}

impl View for DeviceRow {
    type V = DeviceRowView;

    open spec fn view(&self) -> DeviceRowView {
        DeviceRowView {
            name: self.name@,
            desc: self.desc@,
            hardware: self.hardware,
            selected: self.selected,
        }
    }
}

/// The contents of a list of rows.
pub open spec fn device_row_views(v: Seq<DeviceRow>) -> Seq<DeviceRowView> {
    Seq::new(v.len(), |i: int| v[i]@)
}

/// The row of a device: its card is named unless its description does so.
pub open spec fn device_row(d: DeviceInfo, current: Seq<char>) -> DeviceRowView {
    DeviceRowView {
        name: d.name@,
        desc: match d.card_name {
            Some(card) => if !contains(d.description@, card@) {
                card@ + " — "@ + d.description@
            } else {
                d.description@
            },
            None => d.description@,
        },
        hardware: d.kind == DeviceKind::Hardware,
        selected: d.name@ == current,
    }
}

/// The rows of the first `n` devices: the null device is not offered.
pub open spec fn offered(devices: Seq<DeviceInfo>, current: Seq<char>, n: nat) -> Seq<DeviceRowView>
    decreases n,
{
    if n == 0 || n > devices.len() {
        Seq::empty()
    } else if devices[n - 1].kind == DeviceKind::Null {
        offered(devices, current, (n - 1) as nat)
    } else {
        offered(devices, current, (n - 1) as nat).push(device_row(devices[n - 1], current))
    }
}

/// Whether some row is selected.
pub open spec fn some_selected(rows: Seq<DeviceRowView>) -> bool {
    exists|i: int| 0 <= i < rows.len() && (#[trigger] rows[i]).selected
}

/// The rows of the devices; one for the current device where it is not among
/// them.
pub open spec fn device_rows_of(devices: Seq<DeviceInfo>, current: Seq<char>) -> Seq<DeviceRowView> {
    let rows = offered(devices, current, devices.len());
    if some_selected(rows) {
        rows
    } else {
        rows.push(
            DeviceRowView { name: current, desc: current, hardware: false, selected: true },
        )
    }
}

fn row(d: &DeviceInfo, current: &str) -> (r: DeviceRow)
    ensures
        r@ == device_row(*d, current@),
{
    let desc = match &d.card_name {
        Some(card) => if contains_chars(
            &chars_of(d.description.as_str()),
            &chars_of(card.as_str()),
        ) {
            d.description.clone()
        } else {
            let mut s = card.clone();
            s.push_str(" — ");
            s.push_str(d.description.as_str());
            s
        },
        None => d.description.clone(),
    };
    DeviceRow {
        name: d.name.clone(),
        desc,
        hardware: d.kind == DeviceKind::Hardware,
        selected: same_str(d.name.as_str(), current),
    }
}

/// The rows of the output devices.
pub fn device_rows(devices: &Vec<DeviceInfo>, current: &str) -> (rows: Vec<DeviceRow>)
    ensures
        device_row_views(rows@) == device_rows_of(devices@, current@),
{
    let mut rows: Vec<DeviceRow> = Vec::new();
    let mut selected = false;
    assert(device_row_views(rows@) == Seq::<DeviceRowView>::empty());
    for i in 0..devices.len()
        invariant
            device_row_views(rows@) == offered(devices@, current@, i as nat),
            selected == some_selected(device_row_views(rows@)),
    {
        if devices[i].kind != DeviceKind::Null {
            let ghost before = rows@;
            let ghost old_views = device_row_views(before);
            let r = row(&devices[i], current);
            let now = r.selected;
            let ghost x = r@;
            rows.push(r);
            proof {
                let views = device_row_views(rows@);
                assert(views == old_views.push(x));
                if selected {
                    let k = choose|k: int| 0 <= k < old_views.len() && (#[trigger] old_views[k]).selected;
                    assert(views[k].selected);
                }
                if now {
                    assert(views[old_views.len() as int].selected);
                }
                if some_selected(views) {
                    let k = choose|k: int| 0 <= k < views.len() && (#[trigger] views[k]).selected;
                    if k < old_views.len() {
                        assert(old_views[k].selected);
                    }
                }
            }
            selected = selected || now;
        }
    }
    if !selected {
        let ghost before = rows@;
        let r = DeviceRow {
            name: copy_str(current),
            desc: copy_str(current),
            hardware: false,
            selected: true,
        };
        let ghost x = r@;
        rows.push(r);
        assert(device_row_views(rows@) == device_row_views(before).push(x));
    }
    rows
}

/// The device that plays is always on the list.
pub proof fn current_device_is_shown(devices: Seq<DeviceInfo>, current: Seq<char>)
    ensures
        some_selected(device_rows_of(devices, current)),
{
    let rows = offered(devices, current, devices.len());
    if !some_selected(rows) {
        let all = device_rows_of(devices, current);
        assert(all[rows.len() as int].selected);
    }
}

// ---------------------------------------------------------------------------
// Changes
// ---------------------------------------------------------------------------

/// What the page holds.
#[derive(Debug)]
pub struct PageState {
    pub replaygain: i32,
    /// Preamp in dB (`f32` bits), rounded to tenths.
    pub preamp_db: u32,
    pub restore_session: bool,
    pub watch_library: bool,
    pub renderer_name: String,
    pub renderer_enabled: bool,
    pub server_enabled: bool,
    pub lyrics_online: bool,
    pub covers_online: bool,
    pub notifications: bool,
    pub theme_dark: bool,
    pub adaptive_colors: bool,
    pub accent_choice: i32,
}

/// The place of the choice that an index leads to; indices beyond the list are
/// at its ends.
pub open spec fn accent_place(choice: i32) -> int {
    if choice < 0 {
        0
    } else if choice > 6 {
        6
    } else {
        choice as int
    }
}

/// What the page shows of the settings.
pub open spec fn page_of(cfg: Config, p: PageState) -> bool {
    &&& p.replaygain == gain_index(cfg.audio.replaygain)
    &&& p.preamp_db == cfg.audio.preamp_db
    &&& p.restore_session == cfg.audio.restore_session
    &&& p.watch_library == cfg.library.watch
    &&& p.renderer_name@ == cfg.network.name@
    &&& p.renderer_enabled == cfg.network.renderer
    &&& p.server_enabled == cfg.network.media_server
    &&& p.lyrics_online == cfg.online.lyrics
    &&& p.covers_online == cfg.online.cover_art
    &&& p.notifications == cfg.ui.notifications
    &&& p.theme_dark == (cfg.ui.theme == Theme::Dark)
    &&& p.adaptive_colors == cfg.ui.adaptive_colors
    &&& p.accent_choice == accent_from(cfg.ui.accent@, 0)
}

/// Fills the page.
pub fn load_settings(cfg: &Config) -> (p: PageState)
    ensures
        page_of(*cfg, p),
{
    PageState {
        replaygain: replaygain_index(cfg.audio.replaygain),
        preamp_db: cfg.audio.preamp_db,
        restore_session: cfg.audio.restore_session,
        watch_library: cfg.library.watch,
        renderer_name: cfg.network.name.clone(),
        renderer_enabled: cfg.network.renderer,
        server_enabled: cfg.network.media_server,
        lyrics_online: cfg.online.lyrics,
        covers_online: cfg.online.cover_art,
        notifications: cfg.ui.notifications,
        theme_dark: cfg.ui.theme == Theme::Dark,
        adaptive_colors: cfg.ui.adaptive_colors,
        accent_choice: accent_choice(cfg.ui.accent.as_str()) as i32,
    }
}

/// The settings after the page was changed: what is on the page is taken from
/// it, a name only where there is one, and the rest stays.
pub open spec fn changed(before: Config, p: PageState, after: Config) -> bool {
    &&& after.audio.device == before.audio.device
    &&& after.audio.replaygain == gain_at(p.replaygain)
    &&& after.audio.preamp_db == p.preamp_db
    &&& after.audio.restore_session == p.restore_session
    &&& after.library.roots == before.library.roots
    &&& after.library.watch == p.watch_library
    &&& after.network.name@ == (if trim(p.renderer_name@).len() > 0 {
        trim(p.renderer_name@)
    } else {
        before.network.name@
    })
    &&& after.network.renderer == p.renderer_enabled
    &&& after.network.media_server == p.server_enabled
    &&& after.online.lyrics == p.lyrics_online
    &&& after.online.cover_art == p.covers_online
    &&& after.online.radio == before.online.radio
    &&& after.ui.notifications == p.notifications
    &&& after.ui.theme == (if p.theme_dark {
        Theme::Dark
    } else {
        Theme::Light
    })
    &&& after.ui.adaptive_colors == p.adaptive_colors
    &&& after.ui.accent@ == ACCENTS[accent_place(p.accent_choice)]@
    &&& after.ui.tray == before.ui.tray
    &&& after.ui.close_to_tray == before.ui.close_to_tray
    &&& after.scrobble == before.scrobble
}

/// Takes over what the page holds. A blank renderer name leaves the old one;
/// the device, the roots, the accounts, the tray and radio are not on this page.
pub fn settings_changed(cfg: &mut Config, p: &PageState)
    ensures
        changed(*old(cfg), *p, *final(cfg)),
{
    cfg.audio.replaygain = replaygain_at(p.replaygain);
    cfg.audio.preamp_db = p.preamp_db;
    cfg.audio.restore_session = p.restore_session;
    cfg.library.watch = p.watch_library;
    let name = trimmed(p.renderer_name.as_str());
    if !name.as_str().is_empty() {
        cfg.network.name = name;
    }
    cfg.network.renderer = p.renderer_enabled;
    cfg.network.media_server = p.server_enabled;
    cfg.online.lyrics = p.lyrics_online;
    cfg.online.cover_art = p.covers_online;
    cfg.ui.notifications = p.notifications;
    cfg.ui.theme = if p.theme_dark {
        Theme::Dark
    } else {
        Theme::Light
    };
    cfg.ui.adaptive_colors = p.adaptive_colors;
    cfg.ui.accent = copy_str(accent_at(p.accent_choice));
}

/// Removes a root of the library, where there is one at this place.
pub fn remove_root(roots: &mut Vec<String>, i: i32)
    ensures
        final(roots)@ == ({
            let k = if i < 0 {
                0
            } else {
                i as int
            };
            if k < old(roots)@.len() {
                old(roots)@.remove(k)
            } else {
                old(roots)@
            }
        }),
{
    let k: usize = if i < 0 {
        0
    } else {
        i as usize
    };
    if k < roots.len() {
        roots.remove(k);
    }
}

proof fn lemma_accent_found(accent: Seq<char>, k: int, i: int)
    requires
        0 <= i <= k < 7,
        lower_all(ACCENTS[k]@) == lower_all(accent),
    ensures
        i <= accent_from(accent, i) <= k,
        lower_all(ACCENTS[accent_from(accent, i)]@) == lower_all(accent),
    decreases k - i,
{
    if lower_all(ACCENTS[i]@) != lower_all(accent) {
        lemma_accent_found(accent, k, i + 1);
    }
}

proof fn lemma_accents_are_lower(i: int)
    requires
        0 <= i < 7,
    ensures
        lower_all(ACCENTS[i]@) == ACCENTS[i]@,
{
    reveal_strlit("#d4a35a");
    reveal_strlit("#e0785a");
    reveal_strlit("#d66a9c");
    reveal_strlit("#8b7cf6");
    reveal_strlit("#4f9cf0");
    reveal_strlit("#3fb8a8");
    reveal_strlit("#7cc46a");
    assert(lower_all(ACCENTS[i]@) =~= ACCENTS[i]@);
}

/// A page that nobody touched leaves the settings as they are. The name must be
/// one that the page can hold, and the accent one that it offers.
pub proof fn untouched_page_changes_nothing(cfg: Config, p: PageState, after: Config, k: int)
    requires
        page_of(cfg, p),
        changed(cfg, p, after),
        trim(cfg.network.name@) == cfg.network.name@,
        0 <= k < 7,
        cfg.ui.accent@ == ACCENTS[k]@,
    ensures
        after.audio.device == cfg.audio.device,
        after.audio.replaygain == cfg.audio.replaygain,
        after.audio.preamp_db == cfg.audio.preamp_db,
        after.audio.restore_session == cfg.audio.restore_session,
        after.library == cfg.library,
        after.network.name@ == cfg.network.name@,
        after.network.renderer == cfg.network.renderer,
        after.network.media_server == cfg.network.media_server,
        after.online == cfg.online,
        after.ui.theme == cfg.ui.theme,
        after.ui.accent@ == cfg.ui.accent@,
        after.ui.adaptive_colors == cfg.ui.adaptive_colors,
        after.ui.notifications == cfg.ui.notifications,
        after.ui.tray == cfg.ui.tray,
        after.ui.close_to_tray == cfg.ui.close_to_tray,
        after.scrobble == cfg.scrobble,
{
    replaygain_survives_the_page(cfg.audio.replaygain);
    lemma_accent_found(cfg.ui.accent@, k, 0);
    lemma_accents_are_lower(accent_from(cfg.ui.accent@, 0));
    lemma_accents_are_lower(k);
}

} // verus!
