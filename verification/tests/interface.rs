use ricercar::audio::device::{DeviceInfo, DeviceKind};
use ricercar::audio::fmt::{Container, PcmFormat};
use ricercar::audio::player::ChainInfo;
use ricercar::config::{Config, NetworkConfig, ReplayGain, ScrobbleConfig, Theme};
use ricercar::controller::state::{Origin, PlayContext, QueueItem, Repeat, TrackInfo};
use ricercar::library::tracks::{Album, AlbumSort, Playlist, Track, TrackSort};
use ricercar::online::error::OnlineError;
use ricercar::online::lyrics::{parse_lrc, Lyrics, LyricsSource};
use ricercar::online::radio::{RawStation, Station, StationQuery, TagsField};
use ricercar::ui::actions::{
    album_action, album_sort, context_for, export_file, playlist_for, tint, track_action,
    track_activate, track_artist, track_sort, AlbumAction, TrackAction,
};
use ricercar::ui::chain::{update_chain, Listening};
use ricercar::ui::history::{History, Page};
use ricercar::ui::images::{cache_id, disk_size, Fetch, Loader, CAPACITY, EVICTED};
use ricercar::ui::lyrics::{
    asks_online, local_choice, lyric_query, online_choice, plain_lines, shown_line,
};
use ricercar::ui::now::{
    context_label, cover_lookup, cover_source, has_local_cover, notification, on_track_changed,
    same_track, short_error, Source,
};
use ricercar::ui::queue::{queue_meta, rebuild_queue};
use ricercar::ui::radio::{
    asks_for_top, fav_index, play_station, radio_status, search_tag, search_text, station_row,
    toggle_fav,
};
use ricercar::ui::refresh::{repeat_index, shown_ms, Debounce, LibraryWatch};
use ricercar::ui::rows::{
    album_lookup, album_quality, album_year, mark_fav, mark_playing, track_rows, RowOpts,
};
use ricercar::ui::settings::{
    accent_at, accent_choice, device_rows, lastfm_ready, lastfm_status, listenbrainz_status,
    network_status, parse_hex, remove_root, replaygain_at, replaygain_index, settings_changed,
    PageState,
};
use ricercar::ui::text::{
    count, detect_language, greeting, khz, long_duration, mmss, quality, t, unknown_artist,
};
use ricercar::ui::tray::{Tray, TrayAction};

#[test]
fn formats() {
    assert_eq!(mmss(61_000), "1:01");
    assert_eq!(mmss(3_725_000), "1:02:05");
    assert_eq!(long_duration(47 * 60_000), "47 min");
    assert_eq!(long_duration(72 * 60_000), "1 h 12 min");
    assert_eq!(long_duration(3000 * 60_000), "50 h");
    assert_eq!(quality(Some(96_000), Some(24), Some("FLAC"), None), "24/96");
    assert_eq!(
        quality(Some(44_100), Some(16), Some("FLAC"), None),
        "16/44.1"
    );
    assert_eq!(quality(Some(44_100), None, Some("MP3"), Some(320)), "320k");
}

#[test]
fn rates_round_as_floats_do() {
    for rate in (0u32..400_000).step_by(50).chain([22_050, 11_025, 4_294_967_250, 1, 99, 151]) {
        let want = if rate % 1000 == 0 {
            format!("{}", rate / 1000)
        } else {
            format!("{:.1}", rate as f64 / 1000.0)
        };
        assert_eq!(khz(rate), want, "{rate}");
    }
}

#[test]
fn languages() {
    let vars = |v: &[Option<&str>]| -> Vec<Option<String>> {
        v.iter().map(|x| x.map(str::to_string)).collect()
    };
    assert_eq!(detect_language(&vars(&[None, Some(""), Some("fr_FR.UTF-8")])), "fr");
    assert_eq!(detect_language(&vars(&[Some("de_DE"), None, Some("fr_FR")])), "en");
    assert_eq!(detect_language(&[]), "en");
    assert_eq!(t("Quit", true), "Quitter");
    assert_eq!(t("Quit", false), "Quit");
    assert_eq!(t("no such text", true), "no such text");
    assert_eq!(count(1, "track", "tracks", false), "1 track");
    assert_eq!(count(0, "track", "tracks", true), "0 titres");
    assert_eq!(greeting(5, false), "Good morning");
    assert_eq!(greeting(23, false), "Good night");
    assert_eq!(greeting(18, true), "Bonsoir");
    assert_eq!(unknown_artist(true), "Artiste inconnu");
}

#[test]
fn pages_back_and_forward() {
    let mut h = History::new();
    assert!(!h.can_back() && !h.can_forward());
    assert!(h.reload_page().is_none());
    h.navigate(Page::Home, "");
    h.navigate(Page::Album, "x");
    h.navigate(Page::Album, "x");
    assert_eq!(h.back(), Some((Page::Home, String::new())));
    assert_eq!(h.back(), None);
    assert_eq!(h.forward(), Some((Page::Album, "x".to_string())));
    assert_eq!(h.forward(), None);
    h.back();
    h.navigate(Page::Radio, "");
    assert!(!h.can_forward());
    assert_eq!(h.reload_page(), Some((Page::Radio, String::new())));
}

fn info() -> TrackInfo {
    TrackInfo {
        uri: "file:///m/a.flac".into(),
        path: Some("/m/a.flac".into()),
        title: "T".into(),
        artist: Some("A".into()),
        album: Some("Al".into()),
        album_id: Some("id".into()),
        duration_ms: 100_000,
        codec: Some("FLAC".into()),
        ..Default::default()
    }
}

fn chain(kind: DeviceKind, bit_perfect: bool) -> ChainInfo {
    ChainInfo {
        device: "hw:1,0".into(),
        device_kind: kind,
        format: Some(PcmFormat { sample_rate: 96_000, channels: 2, bits: 24 }),
        container: Some(Container::S24),
        volume: 100,
        bit_perfect,
    }
}

#[test]
fn the_chain_is_shown() {
    let l = Listening { volume: 100, muted: false, french: false };
    let d = update_chain(&info(), &chain(DeviceKind::Hardware, true), l);
    assert_eq!(d.quality, "24/96");
    assert!(d.bitperfect && d.hires && d.known);
    let hops: Vec<(&str, &str)> =
        d.hops.iter().map(|h| (h.label.as_str(), h.value.as_str())).collect();
    assert_eq!(
        hops,
        [
            ("Source", "FLAC · 96 kHz · 2 ch"),
            ("Decoder", "Decoded to 24-bit integer PCM"),
            ("Output format", "S24_LE · 96 kHz · 2 ch"),
            ("Device", "hw:1,0 · exclusive, no mixer"),
        ]
    );
    assert!(d.hops.iter().all(|h| h.untouched));
    let short: Vec<&str> = d.short.iter().map(|h| h.value.as_str()).collect();
    assert_eq!(short, ["FLAC 24/96", "S24_LE", "hw:1,0"]);
}

#[test]
fn what_touches_the_samples_is_shown() {
    let l = Listening { volume: 73, muted: false, french: true };
    let d = update_chain(&info(), &chain(DeviceKind::Virtual, false), l);
    assert!(!d.bitperfect);
    assert_eq!(d.hops[2].value, "Volume logiciel 73 %");
    assert!(!d.hops[2].untouched && !d.hops[4].untouched);
    assert_eq!(d.short[1].value, "73 %");
    let l = Listening { volume: 100, muted: false, french: false };
    let d = update_chain(&info(), &chain(DeviceKind::Hardware, false), l);
    assert_eq!(d.hops[2].value, "ReplayGain / preamp");
    let mp3 = TrackInfo { codec: Some("MP3".into()), ..info() };
    let d = update_chain(&mp3, &chain(DeviceKind::Null, true), l);
    assert_eq!(d.quality, "96");
    assert!(!d.hires);
    assert_eq!(d.hops[0].value, "MP3 · 96 kHz · 2 ch · lossy");
    assert_eq!(d.short.last().unwrap().value, "Null sink");
}

#[test]
fn the_queue_is_shown() {
    let q: Vec<QueueItem> = (1..=3)
        .map(|n| QueueItem { id: n, info: info() })
        .collect();
    let rows = rebuild_queue(&q, Some(1));
    assert_eq!(rows[0].dur, "1:40");
    assert!(rows[0].past && rows[1].current && !rows[2].past);
    assert_eq!(queue_meta(&q, Some(1), false), "1 track · 2 min");
    assert_eq!(queue_meta(&q, None, false), "3 tracks · 5 min");
    assert_eq!(queue_meta(&q, Some(2), false), "0 tracks");
}

#[test]
fn the_track_is_shown() {
    let d = on_track_changed(&info(), Origin::Local, &Some("ignored".into()), false);
    assert_eq!((d.title.as_str(), d.artist.as_str(), d.album_id.as_str()), ("T", "A", "id"));
    let live = TrackInfo { live: true, path: None, ..info() };
    let d = on_track_changed(&live, Origin::Local, &Some("Song".into()), false);
    assert_eq!((d.title.as_str(), d.artist.as_str(), d.album_id.as_str()), ("Song", "T", ""));
    assert_eq!(d.origin, "Internet radio");
    let d = on_track_changed(&TrackInfo { artist: None, ..info() }, Origin::Remote, &None, true);
    assert_eq!((d.artist.as_str(), d.origin), ("Artiste inconnu", "UPnP"));
    assert!(!same_track(&Some("/m/a.flac".into()), Some(1), &info(), &None));
}

#[test]
fn covers_and_notifications() {
    assert!(matches!(
        cover_source(&TrackInfo { cover: Some("http://x".into()), ..info() }),
        Some(Source::Url(u)) if u == "http://x"
    ));
    let no_album = TrackInfo { cover: Some("/m/a".into()), album_id: None, ..info() };
    assert_eq!(cover_source(&no_album).unwrap().key(), "p:/m/a");
    assert!(has_local_cover(&no_album));
    assert!(cover_source(&info()).is_none());
    let l = cover_lookup(&TrackInfo { album_artist: Some("AA".into()), ..info() }).unwrap();
    assert_eq!((l.artist.as_str(), l.album.as_str()), ("AA", "Al"));
    assert_eq!(notification(&info(), &None), ("T".to_string(), "A — Al".to_string()));
    let live = TrackInfo { live: true, ..info() };
    assert_eq!(
        notification(&live, &Some("Song".into())),
        ("Song".to_string(), "T".to_string())
    );
    assert_eq!(context_label(&PlayContext::Artist("X".into()), None, false), "Playing from X");
    assert_eq!(context_label(&PlayContext::Album("i".into()), None, false), "");
    assert_eq!(context_label(&PlayContext::Mix, None, true), "Lecture depuis Mix de la bibliothèque");
}

#[test]
fn errors_are_short() {
    assert_eq!(short_error("open: a: no such file"), "no such file");
    assert_eq!(short_error(&"x".repeat(141)), format!("{}…", "x".repeat(140)));
    // A character that straddles the limit is left out.
    assert_eq!(short_error(&format!("{}é", "x".repeat(139))), format!("{}…", "x".repeat(139)));
}

#[test]
fn lyrics_are_chosen() {
    let q = lyric_query(&info(), Some("Artist - Some - Title"));
    assert_eq!((q.artist.as_deref(), q.title.as_str()), (Some("Artist"), "Some - Title"));
    assert!(q.album.is_none());
    assert_eq!(q.duration, Some(100));
    let q = lyric_query(&info(), None);
    assert_eq!((q.artist.as_deref(), q.album.as_deref()), (Some("A"), Some("Al")));
    let s = local_choice("[00:01.00]a", true);
    assert!(s.synced);
    assert_eq!(s.source, "Lyrics from the .lrc file");
    let s = local_choice(" a \nb", false);
    assert!(!s.synced);
    assert_eq!(s.lines[0].text, "a");
    assert!(asks_online(&Some("A".into()), true) && !asks_online(&None, true));
    let l = |instrumental, synced: Option<&str>| Lyrics {
        synced: synced.map(parse_lrc),
        plain: Some("p".into()),
        source: LyricsSource::Lrclib,
        instrumental,
    };
    assert_eq!(online_choice(Some(Ok(Some(l(true, None)))), true).1, "Instrumental");
    let (found, _) = online_choice(Some(Ok(Some(l(false, Some("[00:01.00]a"))))), true);
    assert!(found.unwrap().synced);
    let (found, _) = online_choice(Some(Ok(Some(l(false, None)))), true);
    assert_eq!(found.unwrap().lines[0].text, "p");
    assert_eq!(
        online_choice(None, false).1,
        "Online lyrics are turned off in Settings"
    );
    let failed = online_choice(Some(Err(OnlineError::NotConfigured)), true);
    assert!(failed.0.is_none());
    let lines = parse_lrc("[00:01.00]a\n[00:02.00]b");
    assert_eq!(shown_line(&lines, true, 750), Some(0));
    assert_eq!(shown_line(&lines, false, 5_000), None);
    assert!(plain_lines("").is_empty());
}

fn library_track(n: u32, disc: Option<u32>) -> Track {
    Track {
        path: format!("/m/{n}.flac"),
        uri: String::new(),
        title: format!("t{n}"),
        artist: Some("artist".into()),
        album_artist: None,
        album: None,
        album_id: "id".into(),
        track: Some(n),
        disc,
        year: None,
        genre: None,
        composer: None,
        duration_ms: 61_000,
        sample_rate: Some(96_000),
        bits: Some(24),
        channels: Some(2),
        bitrate: None,
        codec: Some("FLAC".into()),
        rg_track_gain: None,
        rg_track_peak: None,
        rg_album_gain: None,
        rg_album_peak: None,
        mb_album_id: None,
        favorite: false,
        play_count: 2,
    }
}

#[test]
fn rows_of_tracks() {
    let o = RowOpts {
        cover: false,
        eager: true,
        track_numbers: true,
        discs: true,
        album_artist: Some("ARTIST".into()),
    };
    let tracks =
        [library_track(1, Some(1)), library_track(2, Some(1)), library_track(9, Some(2))];
    let rows = track_rows(&tracks, &o, &Some("/m/2.flac".into()), false);
    let discs: Vec<&str> = rows.iter().map(|r| r.disc.as_str()).collect();
    assert_eq!(discs, ["Disc 1", "", "Disc 2"]);
    assert_eq!((rows[2].n.as_str(), rows[2].artist.as_str()), ("9", ""));
    assert!(rows[1].playing && !rows[0].playing);
    assert_eq!((rows[0].dur.as_str(), rows[0].fmt.as_str()), ("1:01", "24/96"));
    let o = RowOpts { track_numbers: false, cover: true, album_artist: None, ..o };
    let rows = track_rows(&tracks[..2], &o, &None, false);
    assert_eq!((rows[1].n.as_str(), rows[1].artist.as_str()), ("2", "artist"));
    assert_eq!((rows[0].disc.as_str(), rows[0].ckey.as_str()), ("", "id"));
}

#[test]
fn rows_follow_the_player() {
    let o = RowOpts {
        cover: false,
        eager: true,
        track_numbers: false,
        discs: false,
        album_artist: None,
    };
    let tracks = [library_track(1, None), library_track(2, None)];
    let mut rows = track_rows(&tracks, &o, &Some("/m/2.flac".into()), false);
    mark_playing(&mut rows, Some("/m/1.flac"));
    assert!(rows[0].playing && !rows[1].playing);
    mark_playing(&mut rows, None);
    assert!(!rows[0].playing && !rows[1].playing);
    mark_fav(&mut rows, "/m/2.flac", true);
    assert!(!rows[0].fav && rows[1].fav);
    mark_fav(&mut rows, "/m/9.flac", false);
    assert!(rows[1].fav);
    mark_fav(&mut rows, "/m/2.flac", false);
    assert!(!rows[1].fav);
}

fn album() -> Album {
    Album {
        id: "i".into(),
        title: "Al".into(),
        artist: "A".into(),
        year: Some(1997),
        genre: None,
        track_count: 1,
        disc_count: 1,
        duration_ms: 0,
        added_at: 0,
        max_rate: Some(44_100),
        max_bits: Some(16),
        codec: Some("FLAC".into()),
        cover_path: String::new(),
        dir: String::new(),
        favorite: false,
    }
}

#[test]
fn albums_are_shown() {
    assert_eq!(album_year(&album()), "1997");
    assert_eq!(album_quality(&album()), "FLAC 16/44.1");
    assert_eq!(album_quality(&Album { codec: Some("MP3".into()), ..album() }), "MP3");
    assert_eq!(album_lookup(&album()).unwrap().album, "Al");
    assert!(album_lookup(&Album { artist: "Various Artists".into(), ..album() }).is_none());
}

fn station(uuid: &str) -> Station {
    Station::from_raw(RawStation {
        stationuuid: uuid.into(),
        name: Some("FIP".into()),
        url_resolved: Some("http://fip".into()),
        url: None,
        homepage: None,
        favicon: Some("http://icon".into()),
        tags: Some(TagsField::Csv("a,b,c,d,e".into())),
        country: Some("France".into()),
        countrycode: None,
        language: None,
        codec: Some("AAC".into()),
        bitrate: Some(192),
        votes: None,
        clickcount: None,
        hls: None,
    })
}

#[test]
fn stations_are_shown_and_played() {
    let r = station_row(&station("1"), true);
    assert_eq!(r.sub, "France · AAC 192 kbit/s");
    assert_eq!(r.tags, "a, b, c, d");
    assert_eq!(r.ckey, "http://icon");
    let i = play_station(&station("1"));
    assert!(i.live);
    assert_eq!(i.uri, "http://fip");
    assert_eq!(i.artist.as_deref(), Some("France · a"));
    let mut favs = vec![station("1")];
    toggle_fav(&mut favs, station("2"));
    assert_eq!(fav_index(&favs, "2"), Some(1));
    toggle_fav(&mut favs, station("1"));
    assert_eq!(fav_index(&favs, "1"), None);
    assert_eq!(favs.len(), 1);
}

#[test]
fn stations_are_searched() {
    let s = search_text("  ", false);
    assert!(asks_for_top(&s.query));
    assert_eq!(s.label, "Top stations");
    let s = search_text(" jazz ", false);
    assert_eq!((s.query.name.as_deref(), s.query.limit), (Some("jazz"), 80));
    assert_eq!(s.label, "Stations · jazz");
    assert_eq!(search_tag("80s", true).query.tag.as_deref(), Some("80s"));
    assert_eq!(radio_status(&Ok(vec![]), "l", false), "No station found");
    assert_eq!(radio_status(&Ok(vec![station("1")]), "l", false), "l");
    assert_eq!(
        radio_status(&Err(OnlineError::NotConfigured), "l", false),
        "Radio Browser is unreachable"
    );
    assert!(asks_for_top(&StationQuery::default()));
}

#[test]
fn settings_choices() {
    for r in [ReplayGain::Off, ReplayGain::Track, ReplayGain::Album, ReplayGain::Auto] {
        assert_eq!(replaygain_at(replaygain_index(r)), r);
    }
    assert_eq!(accent_choice("#E0785A"), 1);
    assert_eq!(accent_choice("#000000"), 0);
    assert_eq!((accent_at(-3), accent_at(99)), ("#d4a35a", "#7cc46a"));
    assert_eq!(parse_hex("#d4a35a"), Some((0xd4, 0xa3, 0x5a)));
    assert_eq!(parse_hex("d4a35"), None);
    assert_eq!(parse_hex("#gggggg"), None);
}

#[test]
fn settings_are_taken_over() {
    let mut c = Config::default();
    let p = PageState {
        replaygain: 2,
        preamp_db: 0,
        restore_session: false,
        watch_library: true,
        renderer_name: "  ".into(),
        renderer_enabled: false,
        server_enabled: true,
        lyrics_online: false,
        covers_online: true,
        notifications: false,
        theme_dark: false,
        adaptive_colors: false,
        accent_choice: 3,
    };
    settings_changed(&mut c, &p);
    assert_eq!(c.audio.replaygain, ReplayGain::Album);
    assert_eq!(c.network.name, "ricercar");
    assert_eq!(c.ui.theme, Theme::Light);
    assert_eq!(c.ui.accent, "#8b7cf6");
    assert!(!c.online.lyrics && c.online.radio);
    let mut roots = vec!["/a".to_string(), "/b".to_string()];
    remove_root(&mut roots, 5);
    remove_root(&mut roots, -1);
    assert_eq!(roots, ["/b"]);
}

#[test]
fn statuses() {
    let n = NetworkConfig { name: "n".into(), renderer: true, media_server: true };
    assert_eq!(network_status(&n, Some(80), false), "Visible on the network as “n” · port 80");
    assert_eq!(network_status(&n, None, false), "Renderer is off");
    let mut s = ScrobbleConfig::default();
    assert_eq!(lastfm_status(&s, false), "");
    s.lastfm_session = "k".into();
    s.lastfm_user = "u".into();
    assert_eq!(lastfm_status(&s, false), "Connected as u");
    assert_eq!(listenbrainz_status(&Ok(None), false), "Invalid token");
    assert_eq!(
        listenbrainz_status(&Err(OnlineError::NotConfigured), false),
        "Network error: service not configured"
    );
    assert!(lastfm_ready("k", "s") && !lastfm_ready(" ", "s"));
}

#[test]
fn devices_are_offered() {
    let d = |name: &str, kind, card: Option<&str>| DeviceInfo {
        name: name.into(),
        description: "K7: USB".into(),
        kind,
        card_name: card.map(str::to_string),
    };
    let list = vec![
        d("null", DeviceKind::Null, None),
        d("hw:1,0", DeviceKind::Hardware, Some("FiiO")),
        d("pulse", DeviceKind::Virtual, Some("K7")),
    ];
    let rows = device_rows(&list, "hw:1,0");
    assert_eq!(rows.len(), 2);
    assert_eq!(rows[0].desc, "FiiO — K7: USB");
    assert_eq!(rows[1].desc, "K7: USB");
    assert!(rows[0].selected && rows[0].hardware && !rows[1].selected);
    let rows = device_rows(&list, "gone");
    assert!(rows[2].selected && rows[2].name == "gone");
}

#[test]
fn actions_of_lists() {
    assert!(matches!(track_action("pl:new"), TrackAction::AddTo(x) if x == "new"));
    assert!(matches!(track_action("fav"), TrackAction::Favorite));
    assert!(matches!(track_action("?"), TrackAction::Nothing));
    assert!(matches!(album_action("artist-shuffle"), AlbumAction::ArtistShuffle));
    assert!(matches!(album_action("pl:3"), AlbumAction::AddTo(x) if x == "3"));
    assert_eq!(album_sort(2), AlbumSort::YearDesc);
    assert_eq!(album_sort(9), AlbumSort::Title);
    assert_eq!(track_sort(5), TrackSort::MostPlayed);
    let p = track_activate(600, 550);
    assert_eq!((p.from, p.to, p.start), (550, 600, 0));
    // The player takes the last track where there are fewer.
    let p = track_activate(2, 9);
    assert_eq!((p.from, p.to, p.start), (0, 2, 9));
    let p = track_activate(500, 3);
    assert_eq!((p.from, p.to, p.start), (0, 500, 3));
    assert!(matches!(context_for("playlist", "", "", 4), PlayContext::Playlist(4)));
    assert!(matches!(context_for("search", "", "", 4), PlayContext::Nowhere));
    assert_eq!(track_artist(&library_track(1, None)), "artist");
    assert_eq!(export_file("a/b"), "a-b.m3u8");
    let pl = |id| Playlist {
        id,
        name: String::new(),
        track_count: 0,
        duration_ms: 0,
        updated_at: 0,
        cover_path: None,
    };
    assert_eq!(playlist_for("new", &vec![pl(3), pl(7), pl(5)]), Some(7));
    assert_eq!(playlist_for("12", &vec![]), Some(12));
    assert_eq!(playlist_for("x", &vec![]), None);
    // hash("") = 7
    assert_eq!(tint(""), 0x5a6b2f);
    // hash("A") = 7 * 31 + 65 = 282
    assert_eq!(tint("A"), 0x6b3b8c);
}

#[test]
fn covers_are_loaded_once() {
    let mut l = Loader::new();
    let id = cache_id("k", 96);
    assert_eq!(id, "96:k");
    assert_eq!(l.get(&id), Fetch::Scheduled);
    assert_eq!(l.get(&id), Fetch::Pending);
    assert_eq!(l.get("96:j"), Fetch::Scheduled);
    // Most recent requests first.
    assert_eq!(l.next_job().as_deref(), Some("96:j"));
    l.cancel_pending();
    assert_eq!(l.next_job(), None);
    assert_eq!(l.get(&id), Fetch::Scheduled);
    assert!(l.arrived(&id, true).is_empty());
    assert!(l.peek(&id));
    assert_eq!(l.get(&id), Fetch::Cached);
    l.arrived("96:j", false);
    assert_eq!(l.get("96:j"), Fetch::Pending);
    l.forget_missing();
    assert_eq!(l.get("96:j"), Fetch::Scheduled);
    assert_eq!((disk_size(96), disk_size(320), disk_size(640)), (128, 320, 800));
}

#[test]
fn old_covers_go() {
    let mut l = Loader::new();
    for i in 0..CAPACITY {
        assert!(l.arrived(&format!("{i}"), true).is_empty());
    }
    assert_eq!(l.get("0"), Fetch::Cached);
    let gone = l.arrived("new", true);
    assert_eq!(gone.len(), EVICTED);
    assert_eq!(gone[0], "1");
    assert!(l.peek("0") && l.peek("new") && !l.peek("1"));
}

#[test]
fn changes_are_shown_when_they_settle() {
    let mut w = LibraryWatch::new(1);
    assert!(!w.tick(2, false, false, 1_000));
    assert!(!w.tick(3, false, false, 1_600));
    assert!(w.tick(3, false, false, 1_601));
    assert!(!w.tick(3, false, true, 1_700));
    assert!(!w.tick(4, false, true, 2_000));
    // A scan that finishes is shown at once.
    assert!(w.tick(4, false, false, 2_001));
    assert!(!w.tick(4, false, false, 9_000));
    assert_eq!((shown_ms(5), shown_ms(u64::MAX)), (5, i32::MAX));
    assert_eq!(repeat_index(Repeat::One), 2);
    let mut d = Debounce { serial: 0 };
    let first = d.request();
    let second = d.request();
    assert!(!d.is_current(first) && d.is_current(second));
}

#[test]
fn the_tray_follows() {
    let mut t = Tray::new();
    assert_eq!(t.title(), "ricercar");
    t.title = "X".into();
    t.playing = true;
    assert_eq!(t.title(), "ricercar — X");
    let m = t.menu(true);
    assert_eq!((m[1].label, m[1].icon), ("Pause", "media-playback-pause"));
    assert_eq!((m[4].label, m[4].action), ("Quitter", TrayAction::Quit));
    assert_eq!(m[0].label, "Masquer la fenêtre");
}
