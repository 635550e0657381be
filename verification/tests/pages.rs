use ricercar::audio::player::TransportStatus;
use ricercar::config::{Config, ReplayGain, Theme};
use ricercar::controller::state::{
    Controller, CtlEvent, EnqueueAt, PlayContext, Repeat, TrackInfo,
};
use ricercar::daemon::startup::add_root;
use ricercar::library::tracks::{Album, AlbumSort, Artist, Genre, Track, TrackSort};
use ricercar::online::radio::{RawStation, Station};
use ricercar::ui::actions::{album_action, album_step, tint, AlbumStep};
use ricercar::ui::history::Page;
use ricercar::ui::images::{Art, LARGE, THUMB, TILE};
use ricercar::ui::now::Source;
use ricercar::ui::pages::{
    album_card, artist_card, first_rows, found_tracks, genre_card, go_to_artist, load, load_album,
    load_albums, load_artist, load_playlist, more_albums, playlist_name, produce, row_art,
    row_index, search_typed, shuffle_all, station_at, unmutes, visible, ArtStep, CoverSlot,
    PageQuery, SearchStep, MORE_ALBUMS,
};

use ricercar::ui::radio::{load_radio, show_stations, RadioStep};
use ricercar::ui::rows::RowOpts;
use ricercar::ui::settings::{load_settings, settings_changed};
use ricercar::ui::tick::{read_events, reloads_page, reloads_roots, Pane};

fn album(id: &str, rate: u32) -> Album {
    Album {
        id: id.into(),
        title: "Kid A".into(),
        artist: "Radiohead".into(),
        year: Some(2000),
        genre: Some("Rock".into()),
        track_count: 10,
        disc_count: 1,
        duration_ms: 2_820_000,
        added_at: 0,
        max_rate: Some(rate),
        max_bits: Some(16),
        codec: Some("FLAC".into()),
        cover_path: format!("/m/{id}.flac"),
        dir: "/m".into(),
        favorite: true,
    }
}

fn track(id: &str, ms: u64) -> Track {
    Track {
        path: format!("/m/{id}.flac"),
        uri: String::new(),
        title: id.into(),
        artist: None,
        album_artist: None,
        album: None,
        album_id: "al".into(),
        track: None,
        disc: None,
        year: None,
        genre: None,
        composer: None,
        duration_ms: ms,
        sample_rate: None,
        bits: None,
        channels: None,
        bitrate: None,
        codec: None,
        rg_track_gain: None,
        rg_track_peak: None,
        rg_album_gain: None,
        rg_album_peak: None,
        mb_album_id: None,
        favorite: false,
        play_count: 0,
    }
}

fn place(a: &Option<Art>) -> Option<(String, String)> {
    match a {
        Some(Art { src: Source::Track { key, path }, size: LARGE, lookup: None, eager: true }) => {
            Some((key.clone(), path.clone()))
        }
        _ => None,
    }
}

#[test]
fn cards_name_their_covers() {
    let c = album_card(&album("a", 96_000), false);
    assert_eq!((c.year.as_str(), c.ckey.as_str(), c.hires, c.fav), ("2000", "a", true, true));
    assert!(matches!(&c.art.src, Source::Track { key, path } if key == "a" && path == "/m/a.flac"));
    assert_eq!((c.art.size, c.art.eager), (TILE, false));
    assert_eq!(c.art.lookup.unwrap().album, "Kid A");
    let various = Album { artist: "Various Artists".into(), ..album("a", 1) };
    assert!(album_card(&various, true).art.lookup.is_none());
    let artist = Artist {
        name: "Björk".into(),
        album_count: 2,
        track_count: 20,
        cover_path: "/m/x.flac".into(),
    };
    let c = artist_card(&artist, true);
    assert!(matches!(&c.art.src, Source::Track { key, .. } if key == "p:/m/x.flac"));
    assert!(c.art.eager && c.art.lookup.is_none());
    assert_eq!((c.albums, c.tracks, c.ckey.as_str()), (2, 20, "p:/m/x.flac"));
    let c = genre_card(&Genre { name: "Jazz".into(), album_count: 3, track_count: 4 });
    assert_eq!((c.albums, c.tint), (3, tint("Jazz")));
}

#[test]
fn albums_can_be_narrowed_to_high_resolution() {
    let albums = vec![album("a", 44_100), album("b", 96_000), album("c", 48_000)];
    assert_eq!(load_albums(&albums, false), [0, 1, 2]);
    assert_eq!(load_albums(&albums, true), [1]);
}

#[test]
fn an_album_has_a_page() {
    let p = load_album(&album("a", 96_000));
    assert_eq!((p.title.as_str(), p.year.as_str(), p.hires), ("Kid A", "2000", true));
    assert!(matches!(&p.art.src, Source::Track { key, path } if key == "a" && path == "/m/a.flac"));
    assert_eq!((p.art.size, p.art.eager), (LARGE, true));
    assert_eq!(p.art.lookup.unwrap().artist, "Radiohead");
    assert!(p.rows.track_numbers && p.rows.discs && !p.rows.cover);
    assert_eq!(p.rows.album_artist.as_deref(), Some("Radiohead"));
    assert_eq!(p.genre, "Rock");
    assert_eq!(p.count, 10);
    assert_eq!(p.duration, "47 min");
    assert_eq!(p.quality, "FLAC 16/96");
    assert_eq!(p.path, "/m");
}

#[test]
fn other_albums_are_offered() {
    let own: Vec<Album> = (0..20).map(|i| album(&i.to_string(), 44_100)).collect();
    let more = more_albums(&own, "3");
    assert_eq!(more.len(), MORE_ALBUMS);
    assert_eq!(more, [0, 1, 2, 4, 5, 6, 7, 8, 9, 10, 11, 12]);
    assert_eq!(more_albums(&own[..3].to_vec(), "1"), [0, 2]);
    assert!(more_albums(&vec![album("a", 1)], "a").is_empty());
}

#[test]
fn an_artist_has_a_page() {
    let p = load_artist("X", &vec![album("a", 1), album("b", 1)], &vec![album("c", 1)]);
    assert_eq!((p.name.as_str(), p.albums, p.tracks), ("X", 2, 20));
    assert_eq!(place(&p.cover), Some(("a".to_string(), "/m/a.flac".to_string())));
    let p = load_artist("X", &vec![], &vec![album("c", 1)]);
    assert_eq!((p.albums, p.tracks), (0, 0));
    assert_eq!(place(&p.cover), Some(("c".to_string(), "/m/c.flac".to_string())));
    assert!(load_artist("X", &vec![], &vec![]).cover.is_none());
}

#[test]
fn a_playlist_has_a_page() {
    let p = load_playlist(&vec![track("a", 60_000), track("b", 120_000)]);
    assert_eq!((p.count, p.duration.as_str()), (2, "3 min"));
    assert_eq!(place(&p.cover), Some(("al".to_string(), "/m/a.flac".to_string())));
    assert!(load_playlist(&vec![]).cover.is_none());
}

#[test]
fn rows_in_view_ask_for_covers() {
    let slot = |key: &str, filled: bool| CoverSlot { ckey: key.to_string(), filled };
    let rows = vec![slot("a", false), slot("b", true), slot("", false), slot("d", false)];
    assert_eq!(visible(&rows, 0, 40, true), ["a", "d"]);
    assert_eq!(visible(&rows, 0, 3, false), ["a", ""]);
    assert_eq!(visible(&rows, 2, 3, true), Vec::<String>::new());
    assert_eq!(visible(&rows, 9, 12, true), Vec::<String>::new());
}

#[test]
fn art_comes_from_disk_before_the_web() {
    let file = Source::Track { key: "k".into(), path: "/m/a.flac".into() };
    assert!(matches!(produce(&file, true, true, true, false), ArtStep::Open));
    assert!(matches!(produce(&file, false, true, true, false), ArtStep::AskOnline));
    assert!(matches!(produce(&file, false, true, true, true), ArtStep::Nothing));
    assert!(matches!(produce(&file, false, true, false, false), ArtStep::Nothing));
    assert!(matches!(produce(&file, false, false, true, false), ArtStep::Nothing));
    let url = |u: &str| produce(&Source::Url(u.to_string()), false, false, false, false);
    assert!(matches!(url("https://x/y.png"), ArtStep::Fetch));
    assert!(matches!(url("ftp://x/y.png"), ArtStep::Nothing));
}

#[test]
fn typing_searches_after_a_pause() {
    match search_typed("  miles ", Page::Home) {
        SearchStep::Later(q) => assert_eq!(q, "miles"),
        other => panic!("{other:?}"),
    }
    assert!(matches!(search_typed("  ", Page::Search), SearchStep::Back));
    assert!(matches!(search_typed("", Page::Home), SearchStep::Nothing));
}

#[test]
fn small_inputs() {
    assert_eq!(playlist_name("  Late "), Some("Late".to_string()));
    assert_eq!(playlist_name("   "), None);
    assert!(unmutes(true, 1) && !unmutes(true, 0) && !unmutes(false, 50));
    assert_eq!((row_index(-3), row_index(0), row_index(7)), (0, 0, 7));
    let mut roots = vec!["/a".to_string()];
    add_root(&mut roots, "/b");
    add_root(&mut roots, "/a");
    assert_eq!(roots, ["/a", "/b"]);
    // The same directory, written otherwise.
    add_root(&mut roots, "/a/");
    add_root(&mut roots, "//b/.");
    assert_eq!(roots, ["/a", "/b"]);
}

#[test]
fn pages_ask_for_what_they_show() {
    let q = load(Page::Home, "", "", 0, 0);
    assert_eq!(q.len(), 5);
    assert!(matches!(q[0], PageQuery::RecentlyPlayedAlbums(14)));
    assert!(matches!(q[3], PageQuery::MostPlayedTracks(6)));
    let q = load(Page::Artist, "Can", "", 0, 0);
    assert!(matches!(&q[0], PageQuery::ArtistAlbums(n) if n == "Can"));
    assert!(matches!(&q[1], PageQuery::ArtistTop(n, 5) if n == "Can"));
    assert!(matches!(load(Page::Albums, "", "", 2, 0)[0], PageQuery::Albums(AlbumSort::YearDesc)));
    assert!(matches!(load(Page::Tracks, "", "", 0, 5)[0], PageQuery::Tracks(TrackSort::MostPlayed)));
    assert!(matches!(load(Page::Playlist, "7", "", 0, 0)[0], PageQuery::Playlist(7)));
    assert!(matches!(load(Page::Playlist, "x", "", 0, 0)[0], PageQuery::Playlist(0)));
    assert!(matches!(&load(Page::Search, "", "joga", 0, 0)[0], PageQuery::Search(s) if s == "joga"));
    assert_eq!((first_rows(Page::Albums), first_rows(Page::Home)), (36, 0));
    let many: Vec<Track> = (0..60).map(|i| track(&i.to_string(), 1)).collect();
    let shown = found_tracks(many);
    assert_eq!((shown.len(), shown[49].path.as_str()), (50, "/m/49.flac"));
    assert_eq!(found_tracks(vec![track("a", 1)]).len(), 1);
    assert!(matches!(shuffle_all(), (PageQuery::RandomTracks(300), PlayContext::Mix)));
}

#[test]
fn rows_have_covers_where_lists_show_them() {
    let o = load_album(&album("a", 1)).rows;
    assert!(row_art(&track("a", 1), &o).is_none());
    let o = RowOpts { cover: true, eager: false, ..o };
    let a = row_art(&track("a", 1), &o).unwrap();
    assert!(matches!(&a.src, Source::Track { key, path } if key == "al" && path == "/m/a.flac"));
    assert_eq!((a.size, a.eager), (THUMB, false));
}

#[test]
fn album_actions_have_steps() {
    let own = || vec![track("a", 1), track("b", 1)];
    let appears = || vec![track("c", 1)];
    let step = |name: &str, own, appears| album_step(album_action(name), "id", own, appears);
    let paths = |s: AlbumStep| match s {
        AlbumStep::Play { tracks, context, shuffled } => {
            let p: Vec<String> = tracks.iter().map(|t| t.path.clone()).collect();
            (p.join(" "), format!("{context:?}"), shuffled)
        }
        other => panic!("{other:?}"),
    };
    let artist = "Artist(\"id\")".to_string();
    let both = "/m/a.flac /m/b.flac".to_string();
    assert_eq!(
        paths(step("artist-play", own(), appears())),
        (both.clone(), artist.clone(), false)
    );
    assert_eq!(
        paths(step("artist-shuffle", vec![], appears())),
        ("/m/c.flac".to_string(), artist, true)
    );
    assert_eq!(
        paths(step("genre-shuffle", own(), vec![])),
        (both.clone(), "Mix".to_string(), true)
    );
    assert_eq!(
        paths(step("play", own(), vec![])),
        (both, "Album(\"id\")".to_string(), false)
    );
    // An album without tracks has no actions.
    assert!(matches!(step("play", vec![], appears()), AlbumStep::Nothing));
    assert!(matches!(step("fav", vec![], vec![]), AlbumStep::Nothing));
    assert!(matches!(
        step("next", own(), vec![]),
        AlbumStep::Enqueue { tracks, at: EnqueueAt::Next } if tracks.len() == 2
    ));
    assert!(matches!(step("queue", own(), vec![]), AlbumStep::Enqueue { at: EnqueueAt::End, .. }));
    assert!(matches!(step("artist", own(), vec![]), AlbumStep::GoToArtist));
    assert!(matches!(step("fav", own(), vec![]), AlbumStep::ToggleFavorite));
    assert!(matches!(step("folder", own(), vec![]), AlbumStep::ShowInFolder(p) if p == "/m/a.flac"));
    assert!(matches!(
        step("pl:3", own(), vec![]),
        AlbumStep::AddTo { target, paths } if target == "3" && paths == ["/m/a.flac", "/m/b.flac"]
    ));
    assert!(matches!(step("other", own(), vec![]), AlbumStep::Nothing));
}

#[test]
fn only_library_tracks_lead_to_an_artist() {
    let local = TrackInfo {
        path: Some("/m/a.flac".into()),
        artist: Some("A".into()),
        ..TrackInfo::default()
    };
    assert_eq!(go_to_artist(&local), Some("A".to_string()));
    let both = TrackInfo { album_artist: Some("B".into()), ..local.clone() };
    assert_eq!(go_to_artist(&both), Some("B".to_string()));
    assert_eq!(go_to_artist(&TrackInfo { path: None, ..both }), None);
}

fn station(uuid: &str) -> Station {
    Station::from_raw(RawStation {
        stationuuid: uuid.to_string(),
        name: None,
        url_resolved: None,
        url: None,
        homepage: None,
        favicon: None,
        tags: None,
        country: None,
        countrycode: None,
        language: None,
        codec: None,
        bitrate: None,
        votes: None,
        clickcount: None,
        hls: None,
    })
}

#[test]
fn stations_are_picked_from_their_list() {
    let favs = vec![station("f")];
    let results = vec![station("r"), station("s")];
    let uuid = |list: &str, i: i32| station_at(list, i, &favs, &results).map(|s| s.uuid.clone());
    assert_eq!(uuid("favs", -1), Some("f".to_string()));
    assert_eq!(uuid("favs", 1), None);
    assert_eq!(uuid("results", 1), Some("s".to_string()));
}

#[test]
fn favourite_stations_are_marked_wherever_they_show() {
    let (found, favs) = show_stations(&vec![station("a"), station("b")], &vec![station("b")]);
    assert_eq!(found.iter().map(|r| r.fav).collect::<Vec<_>>(), [false, true]);
    assert_eq!(favs.len(), 1);
    assert!(favs[0].fav && favs[0].uuid == "b");
}

#[test]
fn the_radio_page_loads_once() {
    assert_eq!(load_radio(false, false), RadioStep::Nothing);
    assert_eq!(load_radio(true, false), RadioStep::Load);
    assert_eq!(load_radio(true, true), RadioStep::Show);
}

#[test]
fn the_settings_page_gives_back_what_it_shows() {
    let mut cfg = Config::default();
    cfg.audio.replaygain = ReplayGain::Auto;
    cfg.audio.preamp_db = (-3.5f32).to_bits();
    cfg.ui.theme = Theme::Light;
    cfg.ui.accent = "#4f9cf0".to_string();
    cfg.network.name = "Salon".to_string();
    let page = load_settings(&cfg);
    assert_eq!((page.replaygain, page.accent_choice, page.theme_dark), (3, 4, false));
    let mut after = cfg.clone();
    settings_changed(&mut after, &page);
    assert_eq!(format!("{after:?}"), format!("{cfg:?}"));

    let mut page = load_settings(&cfg);
    page.renderer_name = "   ".to_string();
    page.accent_choice = 99;
    settings_changed(&mut after, &page);
    assert_eq!(after.network.name, "Salon");
    assert_eq!(after.ui.accent, "#7cc46a");
}

#[test]
fn a_look_draws_what_changed() {
    let mut c = Controller::new("null");
    let first = TrackInfo { uri: "file:///m/a.flac".into(), ..TrackInfo::default() };
    let second = TrackInfo { uri: "file:///m/b.flac".into(), ..TrackInfo::default() };
    c.enqueue(vec![first, second], EnqueueAt::End);
    c.state.current = Some(0);
    c.state.status = TransportStatus::Playing;
    c.state.pos_ms = 1500;
    c.state.dur_ms = 1 << 40;
    let mut pane = Pane::new();

    let r = pane.tick(&c.state, false, None);
    assert!(r.track && r.tray && r.queue && r.lyric && r.can_next);
    assert_eq!((r.pos_ms, r.dur_ms, r.repeat), (1500, i32::MAX, 0));
    assert_eq!(pane.now_id, Some(c.state.queue[0].id));
    assert_eq!(pane.lyric, -1);

    // Nothing has changed since.
    let r = pane.tick(&c.state, false, None);
    assert!(!r.track && !r.tray && !r.queue && !r.lyric);

    // An event draws the queue, a pause the tray, a song the track.
    assert!(pane.tick(&c.state, true, None).queue);
    c.state.status = TransportStatus::Paused;
    let r = pane.tick(&c.state, false, Some(3));
    assert!(r.tray && r.lyric && !r.track && !r.queue);
    assert_eq!(pane.lyric, 3);
    c.state.stream_title = Some("Song".into());
    let r = pane.tick(&c.state, false, Some(3));
    assert!(r.track && r.tray && r.queue && !r.lyric);

    c.state.current = Some(1);
    assert!(!pane.tick(&c.state, false, Some(3)).can_next);
    c.state.repeat = Repeat::All;
    let r = pane.tick(&c.state, false, Some(3));
    assert!(r.can_next);
    assert_eq!(r.repeat, 1);
}

#[test]
fn events_become_notes() {
    let events = vec![
        CtlEvent::VolumeChanged,
        CtlEvent::Error("decoding: a.flac: no such file".into()),
        CtlEvent::Played(TrackInfo::default()),
        CtlEvent::Error("x".repeat(200)),
    ];
    let n = read_events(&events, Page::Home);
    assert!(!n.queue_changed && n.plays_changed);
    assert_eq!(n.errors, ["no such file".to_string(), format!("{}…", "x".repeat(140))]);
    assert!(!read_events(&events, Page::Albums).plays_changed);
    assert!(read_events(&vec![CtlEvent::QueueChanged], Page::Home).queue_changed);

    assert!(reloads_page(Page::Home) && !reloads_page(Page::Search));
    assert!(!reloads_page(Page::Settings));
    assert!(reloads_roots(false, Page::Settings) && reloads_roots(true, Page::Home));
    assert!(!reloads_roots(false, Page::Home));
}
