use ricercar::audio::device::{DeviceInfo, DeviceKind};
use ricercar::cli::{command, metadata_text, mmss as cli_mmss, open_target, status_text, Command};
use ricercar::config::Config;
use ricercar::controller::state::{CtlEvent, Repeat, TrackInfo};
use ricercar::audio::player::TransportStatus;
use ricercar::daemon::args::{device_line, forward_to_running, to_uri, usage, Args, Forward};
use ricercar::daemon::startup::{apply, config_path, startup, to_save, update_config};
use ricercar::mpris::{
    art_source, loop_status, metadata, playback_status, position, seek, set_loop_status,
    set_position, signals, supported_uri_schemes, track_id, Art, MetaValue, Signal,
};
use ricercar::paths::same_path;

fn s(v: &[&str]) -> Vec<String> {
    v.iter().map(|x| x.to_string()).collect()
}

#[test]
fn arguments_are_parsed() {
    let a = Args::parse(&s(&[
        "--device", "hw:1,0", "--library", "/a", "--library", "/b", "--no-upnp", "song.flac",
        "--headless", "--config", "c.toml", "--db", "x.db", "--name", "n",
    ]))
    .unwrap();
    assert_eq!(a.device.as_deref(), Some("hw:1,0"));
    assert_eq!(a.roots, ["/a", "/b"]);
    assert!(a.no_upnp && a.headless && !a.no_mpris && !a.no_session);
    assert_eq!(a.open, ["song.flac"]);
    assert_eq!(a.config.as_deref(), Some("c.toml"));
    assert_eq!(a.db.as_deref(), Some("x.db"));
    assert_eq!(a.name.as_deref(), Some("n"));
}

#[test]
fn wrong_arguments_are_told() {
    assert_eq!(Args::parse(&s(&["--db"])).unwrap_err(), "--db needs a value");
    assert_eq!(Args::parse(&s(&["-h"])).unwrap_err(), usage());
    assert_eq!(
        Args::parse(&s(&["--nope"])).unwrap_err(),
        format!("unknown argument: --nope\n{}", usage())
    );
    assert!(usage().starts_with("usage: ricercar [FILE|URI]..."));
    assert!(Args::parse(&[]).unwrap().open.is_empty());
}

#[test]
fn arguments_become_uris() {
    assert_eq!(to_uri("http://x/a", None), "http://x/a");
    assert_eq!(to_uri("a b.flac", Some("/m/a b.flac")), "file:///m/a%20b.flac");
    assert_eq!(to_uri("/gone", None), "file:///gone");
    let a = Args::parse(&s(&["x", "y"])).unwrap();
    assert!(matches!(forward_to_running(&a), Forward::OpenUri(u) if u == "x"));
    assert!(matches!(forward_to_running(&Args::default()), Forward::Raise));
}

#[test]
fn devices_are_printed() {
    let d = DeviceInfo {
        name: "hw:1,0".into(),
        description: "FiiO K7".into(),
        kind: DeviceKind::Hardware,
        card_name: None,
    };
    assert_eq!(device_line(&d), "hw:1,0         FiiO K7  [bit-perfect]");
    let d = DeviceInfo { name: "pulseaudio-sink".into(), kind: DeviceKind::Virtual, ..d };
    assert_eq!(device_line(&d), "pulseaudio-sink FiiO K7");
}

#[test]
fn arguments_override_settings() {
    let a = Args::parse(&s(&["--library", "/b", "--device", "null", "--no-session"])).unwrap();
    let mut c = Config::default();
    c.library.roots = s(&["/a"]);
    c.library.watch = true;
    let plan = startup(&a, c, true, Some("/c::/a"), "/data");
    assert_eq!(plan.config.library.roots, ["/a", "/b", "/c"]);
    assert_eq!(plan.config.audio.device, "null");
    assert_eq!(plan.db, "/data/library.db");
    assert_eq!(plan.session, None);
    assert!(plan.save.is_some() && plan.renderer && plan.mpris && plan.watch);
    assert_eq!(config_path(&a, "/x/config.toml"), "/x/config.toml");
    let mut c = Config::default();
    apply(&mut c, &Args::default(), None);
    assert_eq!(c.audio.device, "default");
}

#[test]
fn flags_are_not_written_to_the_settings() {
    let a = Args::parse(&s(&["--device", "null", "--name", "Attic", "--library", "/b"])).unwrap();
    let mut c = Config::default();
    c.library.roots = s(&["/a"]);
    let plan = startup(&a, c.clone(), true, Some("/c"), "/data");
    assert_eq!(plan.config.audio.device, "null");
    assert_eq!(plan.config.network.name, "Attic");
    let saved = plan.save.unwrap();
    assert_eq!(saved.audio.device, "default");
    assert_eq!(saved.network.name, "ricercar");
    assert_eq!(saved.library.roots, ["/a"]);
    // Only a first run writes, and not to a file that an argument names.
    assert!(startup(&a, c.clone(), false, None, "/data").save.is_none());
    let named = Args::parse(&s(&["--config", "/x.toml"])).unwrap();
    assert!(startup(&named, c.clone(), true, None, "/data").save.is_none());

    // A later change is written, and still none of the flags.
    let before = plan.config;
    let mut after = before.clone();
    after.ui.tray = false;
    let r = to_save(&c, &before, &after);
    assert!(!r.ui.tray);
    assert_eq!(r.audio.device, "default");
    assert_eq!(r.network.name, "ricercar");
    assert_eq!(r.library.roots, ["/a"]);
    after.audio.device = "hw:0,0".into();
    after.library.roots = s(&["/b", "/c", "/d"]);
    let r = to_save(&c, &before, &after);
    assert_eq!(r.audio.device, "hw:0,0");
    assert_eq!(r.library.roots, ["/d"]);
}

#[test]
fn changed_settings_are_applied() {
    let c = Config::default();
    let same = update_config(&Config::default().library, &c, "default");
    assert!(!same.set_device && !same.rescan);
    let mut old = Config::default().library;
    old.roots = s(&["/a"]);
    let r = update_config(&old, &c, "hw:0,0");
    assert!(r.set_device && r.rescan);
    // The same directories, written otherwise, are no change.
    let mut c = Config::default();
    c.library.roots = s(&["/a/./b/"]);
    old.roots = s(&["/a//b"]);
    assert!(!update_config(&old, &c, "default").rescan);
    old.roots = s(&["/a/../b"]);
    assert!(update_config(&old, &c, "default").rescan);
}

#[test]
fn paths_are_compared_by_components() {
    assert!(same_path("/music", "/music/") && same_path("/", "//"));
    assert!(same_path("/a/./b", "/a//b/.") && same_path("a/", "a"));
    assert!(!same_path("a", "/a") && !same_path("./a", "a") && !same_path("", "."));
    assert!(!same_path("/a", "/a/..") && !same_path("/a", "/b"));
}

#[test]
fn commands_of_the_command_line() {
    assert!(matches!(command(&[]), Command::Status));
    assert!(matches!(command(&s(&["help"])), Command::Help));
    assert!(matches!(command(&s(&["toggle"])), Command::Call("PlayPause")));
    assert!(matches!(command(&s(&["open"])), Command::Open(None)));
    assert!(matches!(command(&s(&["shuffle", "off"])), Command::Shuffle(Some(false))));
    assert!(matches!(command(&s(&["shuffle", "x"])), Command::Shuffle(None)));
    assert!(matches!(command(&s(&["repeat", "all"])), Command::Repeat(Some("Playlist"))));
    assert!(matches!(command(&s(&["repeat", "x"])), Command::Repeat(Some("None"))));
    assert!(matches!(command(&s(&["seek", "+30"])), Command::Seek(Some(x)) if x == "+30"));
    assert!(matches!(command(&s(&["volume"])), Command::Volume(None)));
    assert!(matches!(command(&s(&["metadata"])), Command::Metadata));
    assert!(matches!(command(&s(&["nope"])), Command::Unknown(x) if x == "nope"));
}

#[test]
fn texts_of_the_command_line() {
    assert_eq!(cli_mmss(61_000_000), "1:01");
    assert_eq!(cli_mmss(-5), "0:00");
    assert_eq!(
        status_text("Playing", "A", "T", "Al", 61_000_000, 120_000_000),
        "Playing: A — T\n  Al\n  1:01 / 2:00\n"
    );
    assert_eq!(status_text("Stopped", "", "", "", 0, 0), "Stopped:  — \n  0:00 / 0:00\n");
    assert_eq!(open_target("/x", Some("/abs/x")), "file:///abs/x");
    assert_eq!(open_target("http://x", Some("/abs/x")), "http://x");
    let e = [("b".to_string(), "2".to_string()), ("a".to_string(), "1".to_string())];
    assert_eq!(metadata_text(&e), "a: 1\nb: 2\n");
}

fn get<'a>(m: &'a [(&'static str, MetaValue)], k: &str) -> Option<&'a MetaValue> {
    m.iter().find(|(n, _)| *n == k).map(|(_, v)| v)
}

#[test]
fn metadata_on_the_bus() {
    let t = TrackInfo {
        uri: "file:///a".into(),
        title: "T".into(),
        artist: Some("A".into()),
        album: Some("Al".into()),
        duration_ms: 1500,
        track_no: Some(3),
        ..Default::default()
    };
    let m = metadata(Some(7), Some(&t), &Some("ignored".into()), Some("file:///c.jpg".into()));
    assert!(matches!(get(&m, "mpris:trackid"), Some(MetaValue::Path(p)) if p == "/org/ricercar/track/7"));
    assert!(matches!(get(&m, "xesam:title"), Some(MetaValue::Text(x)) if x == "T"));
    assert!(matches!(get(&m, "xesam:artist"), Some(MetaValue::List(x)) if x == "A"));
    assert!(matches!(get(&m, "xesam:trackNumber"), Some(MetaValue::Number(3))));
    assert!(matches!(get(&m, "mpris:length"), Some(MetaValue::Time(1_500_000))));
    assert!(get(&m, "xesam:genre").is_none());
    // Internet radio: the stream title is the song, the station the album.
    let live = TrackInfo { live: true, album: None, duration_ms: 0, ..t };
    let m = metadata(None, Some(&live), &Some("Song".into()), None);
    assert!(matches!(get(&m, "xesam:title"), Some(MetaValue::Text(x)) if x == "Song"));
    assert!(matches!(get(&m, "xesam:album"), Some(MetaValue::Text(x)) if x == "T"));
    assert!(get(&m, "mpris:length").is_none());
    assert_eq!(metadata(None, None, &None, None).len(), 1);
}

#[test]
fn names_on_the_bus() {
    for r in [Repeat::Off, Repeat::All, Repeat::One] {
        assert_eq!(set_loop_status(loop_status(r)), r);
    }
    assert_eq!(set_loop_status("x"), Repeat::Off);
    assert_eq!(playback_status(TransportStatus::Paused), "Paused");
    assert_eq!(track_id(None), "/org/mpris/MediaPlayer2/TrackList/NoTrack");
    assert_eq!(supported_uri_schemes(), ["file", "http", "https"]);
}

#[test]
fn positions_on_the_bus() {
    assert_eq!(seek(-1_999), -1);
    assert_eq!(seek(2_500_000), 2_500);
    assert_eq!(seek(i64::MIN), i64::MIN / 1000);
    assert_eq!(set_position(Some(1), "/org/ricercar/track/1", 5_000), Some(5));
    assert_eq!(set_position(Some(2), "/org/ricercar/track/1", 5_000), None);
    assert_eq!(set_position(Some(1), "/org/ricercar/track/1", -1), None);
    assert_eq!(position(5), 5_000);
}

#[test]
fn events_become_signals() {
    assert_eq!(signals(&CtlEvent::Seeked(9)), [Signal::Seeked(9)]);
    assert_eq!(signals(&CtlEvent::TrackChanged)[0], Signal::Metadata);
    assert_eq!(
        signals(&CtlEvent::StatusChanged(TransportStatus::Playing)),
        [Signal::PlaybackStatus, Signal::CanSeek]
    );
    assert!(signals(&CtlEvent::Error("x".into())).is_empty());
}

#[test]
fn covers_on_the_bus() {
    let mut t = TrackInfo { cover: Some("https://x/c.jpg".into()), ..Default::default() };
    assert!(matches!(art_source(&t), Art::Url(u) if u == "https://x/c.jpg"));
    t.cover = Some("/m/a.flac".into());
    assert!(matches!(art_source(&t), Art::Thumb { key, path } if key == path));
    t.album_id = Some("id".into());
    assert!(matches!(art_source(&t), Art::Thumb { key, .. } if key == "id"));
    t.cover = None;
    assert!(matches!(art_source(&t), Art::Nowhere));
}
