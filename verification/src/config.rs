//! User configuration and the directories it lives in.

use vstd::prelude::*;
use vstd::slice::slice_subrange;

use crate::paths::{join_path, joined, same_path, same_place};
use crate::text::{
    chars_of, copy_str, copy_texts, lines, lines_of, replace_all, replaced, starts_with, starts_with_chars,
    text_opt, texts, trim_char_end, trim_char_end_of, trim_char_start, trim_char_start_of,
};

verus! {

// ---------------------------------------------------------------------------
// Directories
// ---------------------------------------------------------------------------

pub open spec fn str_opt(s: Option<&str>) -> Option<Seq<char>> {
    match s {
        Some(s) => Some(s@),
        None => None,
    }
}

/// The application's directory: under the one that a variable names unless it
/// is empty, else under one in the home directory, else under a temporary one.
pub open spec fn xdg_dir(
    var: Option<Seq<char>>,
    home: Option<Seq<char>>,
    fallback: Seq<char>,
    tmp: Seq<char>,
) -> Seq<char> {
    let base = match (var, home) {
        (Some(v), h) => if v.len() > 0 {
            v
        } else {
            match h {
                Some(h) => joined(h, fallback),
                None => tmp,
            }
        },
        (None, Some(h)) => joined(h, fallback),
        (None, None) => tmp,
    };
    joined(base, "ricercar"@)
}

fn xdg(var: Option<&str>, home: Option<&str>, fallback: &str, tmp: &str) -> (r: String)
    ensures
        r@ == xdg_dir(str_opt(var), str_opt(home), fallback@, tmp@),
{
    if let Some(v) = var {
        if !v.is_empty() {
            return join_path(v, "ricercar");
        }
    }
    let base = match home {
        Some(h) => join_path(h, fallback),
        None => copy_str(tmp),
    };
    join_path(base.as_str(), "ricercar")
}

/// `$XDG_CONFIG_HOME/ricercar`.
pub fn config_dir(config_home: Option<&str>, home: Option<&str>, tmp: &str) -> (r: String)
    ensures
        r@ == xdg_dir(str_opt(config_home), str_opt(home), ".config"@, tmp@),
{
    xdg(config_home, home, ".config", tmp)
}

/// `$XDG_DATA_HOME/ricercar`.
pub fn data_dir(data_home: Option<&str>, home: Option<&str>, tmp: &str) -> (r: String)
    ensures
        r@ == xdg_dir(str_opt(data_home), str_opt(home), ".local/share"@, tmp@),
{
    xdg(data_home, home, ".local/share", tmp)
}

/// `$XDG_CACHE_HOME/ricercar`.
pub fn cache_dir(cache_home: Option<&str>, home: Option<&str>, tmp: &str) -> (r: String)
    ensures
        r@ == xdg_dir(str_opt(cache_home), str_opt(home), ".cache"@, tmp@),
{
    xdg(cache_home, home, ".cache", tmp)
}

/// The music directory that a line of `user-dirs.dirs` sets.
pub open spec fn music_line(line: Seq<char>, home: Seq<char>) -> Option<Seq<char>> {
    if starts_with(line, "XDG_MUSIC_DIR="@) {
        let v = line.subrange("XDG_MUSIC_DIR="@.len() as int, line.len() as int);
        Some(replaced(trim_char_end(trim_char_start(v, '"'), '"'), "$HOME"@, home))
    } else {
        None
    }
}

/// What the first line from `i` on that sets the music directory sets it to.
pub open spec fn music_from(
    lines: Seq<Seq<char>>,
    home: Seq<char>,
    i: int,
) -> Option<Seq<char>>
    decreases lines.len() - i,
{
    if i < 0 || i >= lines.len() {
        None
    } else if music_line(lines[i], home) is Some {
        music_line(lines[i], home)
    } else {
        music_from(lines, home, i + 1)
    }
}

/// Where music may lie, first choice first: `$XDG_MUSIC_DIR` from
/// `user-dirs.dirs`, else `~/Music`. The first that is a directory, and not
/// the home directory itself, is taken.
pub fn music_candidates(dirs: &str, home: &str) -> (out: Vec<String>)
    ensures
        texts(out@) == (match music_from(lines(dirs@), home@, 0) {
            Some(m) => seq![m, joined(home@, "Music"@)],
            None => seq![joined(home@, "Music"@)],
        }),
{
    let c = chars_of(dirs);
    let ls = lines_of(&c);
    let ghost want = lines(dirs@);
    let key = chars_of("XDG_MUSIC_DIR=");
    let mut out: Vec<String> = Vec::new();
    let mut i: usize = 0;
    while i < ls.len() && out.len() == 0
        invariant
            want == lines(dirs@),
            ls.len() == want.len(),
            key@ == "XDG_MUSIC_DIR="@,
            forall|j: int| 0 <= j < ls.len() ==> #[trigger] ls@[j]@ == want[j],
            i <= ls.len(),
            out@.len() <= 1,
            out@.len() == 0 ==> music_from(want, home@, 0) == music_from(want, home@, i as int),
            out@.len() == 1 ==> music_from(want, home@, 0) == Some(out@[0]@),
        decreases ls.len() - i,
    {
        assert(ls@[i as int]@ == want[i as int]);
        let l = &ls[i];
        if starts_with_chars(l, &key) {
            let v = slice_subrange(l.as_slice(), key.len(), l.len());
            let t = trim_char_end_of(trim_char_start_of(v, '"'), '"');
            proof {
                reveal_strlit("$HOME");
            }
            out.push(replace_all(t, "$HOME", home));
        }
        i = i + 1;
    }
    let ghost first = out@;
    out.push(join_path(home, "Music"));
    proof {
        if first.len() == 0 {
            assert(texts(out@) == seq![joined(home@, "Music"@)]);
        } else {
            assert(texts(out@) == seq![first[0]@, joined(home@, "Music"@)]);
        }
    }
    out
}

/// The first candidate from `i` on that is a directory, and not the home
/// directory itself.
pub open spec fn music_choice(
    candidates: Seq<Seq<char>>,
    is_dir: Seq<bool>,
    home: Seq<char>,
    i: int,
) -> Option<Seq<char>>
    decreases candidates.len() - i,
{
    if i < 0 || i >= candidates.len() {
        None
    } else if is_dir[i] && !same_place(candidates[i], home) {
        Some(candidates[i])
    } else {
        music_choice(candidates, is_dir, home, i + 1)
    }
}

/// Where music lies: the first candidate that is a directory, and not the home
/// directory itself.
pub fn default_music_dir(candidates: &Vec<String>, is_dir: &Vec<bool>, home: &str) -> (r: Option<
    String,
>)
    requires
        is_dir@.len() == candidates@.len(),
    ensures
        text_opt(r) == music_choice(texts(candidates@), is_dir@, home@, 0),
{
    for i in 0..candidates.len()
        invariant
            is_dir@.len() == candidates@.len(),
            music_choice(texts(candidates@), is_dir@, home@, 0) == music_choice(
                texts(candidates@),
                is_dir@,
                home@,
                i as int,
            ),
    {
        if is_dir[i] && !same_path(candidates[i].as_str(), home) {
            return Some(copy_str(candidates[i].as_str()));
        }
    }
    None
}

// ---------------------------------------------------------------------------
// Settings
// ---------------------------------------------------------------------------

#[derive(Debug, Clone, Copy, PartialEq, Eq, Structural)]
pub enum ReplayGain {
    /// Bit-perfect: no gain applied.
    Off,
    Track,
    Album,
    /// Album gain when playing an album in order, track gain otherwise.
    Auto,
}

#[derive(Debug, Clone, Copy, PartialEq, Eq, Structural)]
pub enum Theme {
    Dark,
    Light,
}

#[derive(Debug)]
pub struct AudioConfig {
    pub device: String,
    pub replaygain: ReplayGain,
    /// `f32` bits.
    pub preamp_db: u32,
    /// Resume the previous queue/position at startup (paused).
    pub restore_session: bool,
}

impl Default for AudioConfig {
    fn default() -> (r: AudioConfig)
        ensures
            r.device@ == "default"@,
            r.replaygain == ReplayGain::Off,
            r.preamp_db == 0,
            r.restore_session,
    {
        AudioConfig {
            device: copy_str("default"),
            replaygain: ReplayGain::Off,
            preamp_db: 0,
            restore_session: true,
        }
    }
}

#[derive(Debug)]
pub struct LibraryConfig {
    pub roots: Vec<String>,
    /// Watch roots for changes (inotify).
    pub watch: bool,
}

impl Default for LibraryConfig {
    fn default() -> (r: LibraryConfig)
        ensures
            r.roots@ == Seq::<String>::empty(),
            !r.watch,
    {
        LibraryConfig { roots: Vec::new(), watch: false }
    }
}

#[derive(Debug)]
pub struct NetworkConfig {
    pub name: String,
    pub renderer: bool,
    pub media_server: bool,
}

impl Default for NetworkConfig {
    fn default() -> (r: NetworkConfig)
        ensures
            r.name@ == "ricercar"@,
            r.renderer,
            r.media_server,
    {
        NetworkConfig { name: copy_str("ricercar"), renderer: true, media_server: true }
    }
}

#[derive(Debug)]
pub struct UiConfig {
    pub theme: Theme,
    /// Accent colour as `#rrggbb`.
    pub accent: String,
    /// Tint the interface with the colours of the current cover.
    pub adaptive_colors: bool,
    pub notifications: bool,
    pub tray: bool,
    /// Keep running in the tray when the window is closed.
    pub close_to_tray: bool,
}

impl Default for UiConfig {
    fn default() -> (r: UiConfig)
        ensures
            r.theme == Theme::Dark,
            r.accent@ == "#d4a35a"@,
            r.adaptive_colors,
            r.notifications,
            r.tray,
            !r.close_to_tray,
    {
        UiConfig {
            theme: Theme::Dark,
            accent: copy_str("#d4a35a"),
            adaptive_colors: true,
            notifications: true,
            tray: true,
            close_to_tray: false,
        }
    }
}

#[derive(Debug)]
pub struct ScrobbleConfig {
    pub listenbrainz_token: String,
    pub lastfm_api_key: String,
    pub lastfm_secret: String,
    pub lastfm_session: String,
    pub lastfm_user: String,
}

impl Default for ScrobbleConfig {
    fn default() -> (r: ScrobbleConfig)
        ensures
            r.listenbrainz_token@.len() == 0,
            r.lastfm_api_key@.len() == 0,
            r.lastfm_secret@.len() == 0,
            r.lastfm_session@.len() == 0,
            r.lastfm_user@.len() == 0,
    {
        ScrobbleConfig {
            listenbrainz_token: String::new(),
            lastfm_api_key: String::new(),
            lastfm_secret: String::new(),
            lastfm_session: String::new(),
            lastfm_user: String::new(),
        }
    }
}

#[derive(Debug, Clone, Copy, PartialEq, Eq, Structural)]
pub struct OnlineConfig {
    /// Fetch synced lyrics from lrclib.net when no local lyrics exist.
    pub lyrics: bool,
    /// Fetch missing album art from MusicBrainz / Cover Art Archive.
    pub cover_art: bool,
    pub radio: bool,
}

impl Default for OnlineConfig {
    fn default() -> (r: OnlineConfig)
        ensures
            r == (OnlineConfig { lyrics: true, cover_art: true, radio: true }),
    {
        OnlineConfig { lyrics: true, cover_art: true, radio: true }
    }
}

#[derive(Debug)]
pub struct Config {
    pub audio: AudioConfig,
    pub library: LibraryConfig,
    pub network: NetworkConfig,
    pub ui: UiConfig,
    pub scrobble: ScrobbleConfig,
    pub online: OnlineConfig,
}

/// Whether two settings of the output are the same.
pub open spec fn same_audio(a: AudioConfig, b: AudioConfig) -> bool {
    &&& a.device@ == b.device@
    &&& a.replaygain == b.replaygain
    &&& a.preamp_db == b.preamp_db
    &&& a.restore_session == b.restore_session
}

/// Whether two settings of the library are the same.
pub open spec fn same_library(a: LibraryConfig, b: LibraryConfig) -> bool {
    &&& texts(a.roots@) == texts(b.roots@)
    &&& a.watch == b.watch
}

/// Whether two settings of the network are the same.
pub open spec fn same_network(a: NetworkConfig, b: NetworkConfig) -> bool {
    &&& a.name@ == b.name@
    &&& a.renderer == b.renderer
    &&& a.media_server == b.media_server
}

/// Whether two settings of the interface are the same.
pub open spec fn same_ui(a: UiConfig, b: UiConfig) -> bool {
    &&& a.theme == b.theme
    &&& a.accent@ == b.accent@
    &&& a.adaptive_colors == b.adaptive_colors
    &&& a.notifications == b.notifications
    &&& a.tray == b.tray
    &&& a.close_to_tray == b.close_to_tray
}

/// Whether two settings of the scrobblers are the same.
pub open spec fn same_scrobble(a: ScrobbleConfig, b: ScrobbleConfig) -> bool {
    &&& a.listenbrainz_token@ == b.listenbrainz_token@
    &&& a.lastfm_api_key@ == b.lastfm_api_key@
    &&& a.lastfm_secret@ == b.lastfm_secret@
    &&& a.lastfm_session@ == b.lastfm_session@
    &&& a.lastfm_user@ == b.lastfm_user@
}

/// Whether all settings are the same.
pub open spec fn same_config(a: Config, b: Config) -> bool {
    &&& same_audio(a.audio, b.audio)
    &&& same_library(a.library, b.library)
    &&& same_network(a.network, b.network)
    &&& same_ui(a.ui, b.ui)
    &&& same_scrobble(a.scrobble, b.scrobble)
    &&& a.online == b.online
}

impl Clone for AudioConfig {
    fn clone(&self) -> (r: AudioConfig)
        ensures
            same_audio(r, *self),
    {
        AudioConfig {
            device: copy_str(self.device.as_str()),
            replaygain: self.replaygain,
            preamp_db: self.preamp_db,
            restore_session: self.restore_session,
        }
    }
}

impl Clone for LibraryConfig {
    fn clone(&self) -> (r: LibraryConfig)
        ensures
            same_library(r, *self),
    {
        LibraryConfig { roots: copy_texts(&self.roots), watch: self.watch }
    }
}

impl Clone for NetworkConfig {
    fn clone(&self) -> (r: NetworkConfig)
        ensures
            same_network(r, *self),
    {
        NetworkConfig {
            name: copy_str(self.name.as_str()),
            renderer: self.renderer,
            media_server: self.media_server,
        }
    }
}

impl Clone for UiConfig {
    fn clone(&self) -> (r: UiConfig)
        ensures
            same_ui(r, *self),
    {
        UiConfig {
            theme: self.theme,
            accent: copy_str(self.accent.as_str()),
            adaptive_colors: self.adaptive_colors,
            notifications: self.notifications,
            tray: self.tray,
            close_to_tray: self.close_to_tray,
        }
    }
}

impl Clone for ScrobbleConfig {
    fn clone(&self) -> (r: ScrobbleConfig)
        ensures
            same_scrobble(r, *self),
    {
        ScrobbleConfig {
            listenbrainz_token: copy_str(self.listenbrainz_token.as_str()),
            lastfm_api_key: copy_str(self.lastfm_api_key.as_str()),
            lastfm_secret: copy_str(self.lastfm_secret.as_str()),
            lastfm_session: copy_str(self.lastfm_session.as_str()),
            lastfm_user: copy_str(self.lastfm_user.as_str()),
        }
    }
}

impl Clone for Config {
    fn clone(&self) -> (r: Config)
        ensures
            same_config(r, *self),
    {
        Config {
            audio: self.audio.clone(),
            library: self.library.clone(),
            network: self.network.clone(),
            ui: self.ui.clone(),
            scrobble: self.scrobble.clone(),
            online: self.online,
        }
    }
}

/// Whether every setting but those of the library has its default.
pub open spec fn otherwise_default(c: Config) -> bool {
    &&& c.audio.device@ == "default"@
    &&& c.audio.replaygain == ReplayGain::Off
    &&& c.audio.preamp_db == 0
    &&& c.audio.restore_session
    &&& c.network.name@ == "ricercar"@
    &&& c.network.renderer
    &&& c.network.media_server
    &&& c.ui.theme == Theme::Dark
    &&& c.ui.accent@ == "#d4a35a"@
    &&& c.ui.adaptive_colors
    &&& c.ui.notifications
    &&& c.ui.tray
    &&& !c.ui.close_to_tray
    &&& c.scrobble.listenbrainz_token@.len() == 0
    &&& c.scrobble.lastfm_api_key@.len() == 0
    &&& c.scrobble.lastfm_secret@.len() == 0
    &&& c.scrobble.lastfm_session@.len() == 0
    &&& c.scrobble.lastfm_user@.len() == 0
    &&& c.online == (OnlineConfig { lyrics: true, cover_art: true, radio: true })
}

impl Default for Config {
    fn default() -> (r: Config)
        ensures
            otherwise_default(r),
            r.library.roots@ == Seq::<String>::empty(),
            !r.library.watch,
    {
        Config {
            audio: AudioConfig::default(),
            library: LibraryConfig::default(),
            network: NetworkConfig::default(),
            ui: UiConfig::default(),
            scrobble: ScrobbleConfig::default(),
            online: OnlineConfig::default(),
        }
    }
}

/// What became of reading the configuration file.
#[derive(Debug)]
pub enum ConfigFile {
    Missing,
    /// It was read, but is no configuration.
    Malformed,
    Read(Config),
}

impl Config {
    /// `config.toml` in the configuration directory.
    pub fn default_path(config_dir: &str) -> (r: String)
        ensures
            r@ == joined(config_dir@, "config.toml"@),
    {
        join_path(config_dir, "config.toml")
    }

    /// Missing file → defaults, with the music directory watched; malformed
    /// file → defaults (never refuse to start because of a typo in the config).
    pub fn load(file: ConfigFile, music: Option<String>) -> (c: Config)
        ensures
            match file {
                ConfigFile::Read(read) => c == read,
                ConfigFile::Malformed => otherwise_default(c) && c.library.roots@ == Seq::<
                    String,
                >::empty() && !c.library.watch,
                ConfigFile::Missing => otherwise_default(c) && c.library.watch && c.library.roots@
                    == (match music {
                    Some(m) => seq![m],
                    None => Seq::empty(),
                }),
            },
    {
        match file {
            ConfigFile::Read(c) => c,
            ConfigFile::Malformed => Config::default(),
            ConfigFile::Missing => {
                let mut c = Config::default();
                c.library.watch = true;
                if let Some(m) = music {
                    c.library.roots.push(m);
                }
                c
            },
        }
    }
}

/// The directories of the user are those that the environment names, else the
/// usual ones in the home directory, else the temporary one.
pub proof fn directories_follow_the_environment(
    v: Seq<char>,
    home: Seq<char>,
    fallback: Seq<char>,
    tmp: Seq<char>,
)
    ensures
        v.len() > 0 ==> xdg_dir(Some(v), Some(home), fallback, tmp) == joined(v, "ricercar"@),
        v.len() == 0 ==> xdg_dir(Some(v), Some(home), fallback, tmp) == joined(
            joined(home, fallback),
            "ricercar"@,
        ),
        xdg_dir(None, Some(home), fallback, tmp) == joined(joined(home, fallback), "ricercar"@),
        xdg_dir(None, None, fallback, tmp) == joined(tmp, "ricercar"@),
{
}

/// Of the places where music may be, the first is taken that is there and is not
/// the home directory itself.
pub proof fn the_first_music_folder_is_taken(
    candidates: Seq<Seq<char>>,
    is_dir: Seq<bool>,
    home: Seq<char>,
    i: int,
)
    requires
        0 <= i < candidates.len(),
    ensures
        is_dir[i] && !same_place(candidates[i], home) ==> music_choice(candidates, is_dir, home, i)
            == Some(candidates[i]),
        !is_dir[i] || same_place(candidates[i], home) ==> music_choice(candidates, is_dir, home, i)
            == music_choice(candidates, is_dir, home, i + 1),
        music_choice(candidates, is_dir, home, candidates.len() as int) is None,
{
}

/// Configurations are the same where each of their settings is.
pub proof fn the_same_settings_are_the_same(a: Config, b: Config)
    requires
        same_config(a, b),
    ensures
        a.audio.device@ == b.audio.device@ && a.audio.replaygain == b.audio.replaygain
            && a.audio.preamp_db == b.audio.preamp_db && a.audio.restore_session
            == b.audio.restore_session,
        texts(a.library.roots@) == texts(b.library.roots@) && a.library.watch == b.library.watch,
        a.network.name@ == b.network.name@ && a.network.renderer == b.network.renderer
            && a.network.media_server == b.network.media_server,
        a.ui.theme == b.ui.theme && a.ui.accent@ == b.ui.accent@ && a.ui.adaptive_colors
            == b.ui.adaptive_colors && a.ui.notifications == b.ui.notifications && a.ui.tray
            == b.ui.tray && a.ui.close_to_tray == b.ui.close_to_tray,
        a.scrobble.listenbrainz_token@ == b.scrobble.listenbrainz_token@
            && a.scrobble.lastfm_api_key@ == b.scrobble.lastfm_api_key@
            && a.scrobble.lastfm_secret@ == b.scrobble.lastfm_secret@ && a.scrobble.lastfm_session@
            == b.scrobble.lastfm_session@ && a.scrobble.lastfm_user@ == b.scrobble.lastfm_user@,
        a.online == b.online,
{
}

/// The music folder of the desktop is named by its own line, relative to the home
/// directory.
pub proof fn the_music_line_names_the_folder(v: Seq<char>, home: Seq<char>, line: Seq<char>)
    ensures
        music_line("XDG_MUSIC_DIR="@ + v, home) == Some(
            replaced(trim_char_end(trim_char_start(v, '"'), '"'), "$HOME"@, home),
        ),
        !starts_with(line, "XDG_MUSIC_DIR="@) ==> music_line(line, home) is None,
{
    let p = "XDG_MUSIC_DIR="@;
    let l = p + v;
    assert(l.subrange(0, p.len() as int) == p);
    assert(l.subrange(p.len() as int, l.len() as int) == v);
}

} // verus!
