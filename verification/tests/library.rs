use ricercar::config::{
    cache_dir, config_dir, data_dir, default_music_dir, music_candidates, Config, ConfigFile,
    ReplayGain,
};
use ricercar::library::covers::{
    cover_pixels, cover_place, needs_resize, sanitize, thumbnail, CoverCache, CoverPlace,
    ThumbStep,
};
use ricercar::library::meta::{
    codec_name, folder_cover, front_picture, gain_number, image_mime, is_disc_dir, local_lyrics, parse_u32,
    parse_year, read_tags, FileKind, PictureKind, RawTags, TagInfo,
};
use ricercar::library::path_index::PathIndex;
use ricercar::library::playlists::{added, export_m3u, import_m3u, moved, removed, M3uEntry};
use ricercar::library::scan::{is_supported, outside_roots, plan_scan, ScanReport, Scanned};
use ricercar::library::search::{albums_by_ids, fts_query, matching_artists, not_among};
use ricercar::library::tracks::{
    album_artist_name, album_id_for, album_key, album_title, fnv, hex16, is_hires, AlbumSort,
    Artist, TrackSort,
};
use ricercar::library::watch::{watch_step, Change, WatchEvent, WatchStep};
use ricercar::uri::{file_uri, path_from_uri, percent_decode, uri_to_path};

fn s(v: &[&str]) -> Vec<String> {
    v.iter().map(|x| x.to_string()).collect()
}

#[test]
fn uri_roundtrip_with_special_chars() {
    let p = "/music/Björk/Début (1993)/01 #1 100%.flac";
    let uri = file_uri(p);
    assert!(!uri.contains(' ') && !uri.contains('#'));
    assert_eq!(uri_to_path(&uri).unwrap(), p);
}

#[test]
fn percent_decoding_keeps_what_is_no_escape() {
    assert_eq!(percent_decode("a%20b"), "a b");
    assert_eq!(percent_decode("100%"), "100%");
    assert_eq!(percent_decode("%zz%41"), "%zzA");
    assert_eq!(percent_decode("%ff"), "\u{fffd}");
    assert_eq!(uri_to_path("http://x/a"), None);
    assert_eq!(path_from_uri("/a b"), Some("/a b".to_string()));
    assert_eq!(path_from_uri("http://x"), None);
}

#[test]
fn gains_and_years() {
    let gain = |s: &str| gain_number(s).parse::<f32>().ok().filter(|g| g.is_finite());
    assert_eq!(gain("-6.54 dB"), Some(-6.54));
    assert_eq!(gain("+1.20 dB"), Some(1.2));
    assert_eq!(gain("0.988"), Some(0.988));
    assert_eq!(gain("n/a"), None);
    assert_eq!(parse_year(Some("1999-03-02")), Some(1999));
    assert_eq!(parse_year(Some("0")), None);
    assert_eq!(parse_year(None), None);
    assert_eq!(parse_u32(Some("3/12")), Some(3));
    assert_eq!(parse_u32(Some(" 7 ")), Some(7));
    assert_eq!(parse_u32(Some("x")), None);
}

fn raw() -> RawTags {
    RawTags {
        title: Some("  ".into()),
        artist: Some(" A ".into()),
        album_artist: None,
        album: Some("Al".into()),
        track: Some("3/12".into()),
        disc: Some("1".into()),
        recording_date: None,
        year: Some("1997".into()),
        release_date: Some("2001".into()),
        original_date: None,
        genre: None,
        composer: None,
        duration_ms: 1000,
        sample_rate: Some(44100),
        bits: None,
        channels: Some(2),
        audio_bitrate: None,
        overall_bitrate: Some(256),
        kind: FileKind::Mp4,
        rg_track_gain: None,
        rg_track_peak: None,
        rg_album_gain: None,
        rg_album_peak: None,
        mb_album_id: None,
        mb_track_id: None,
    }
}

#[test]
fn tags_are_trimmed_and_completed() {
    let t = read_tags(Some(raw()), "file".into());
    assert_eq!(t.title.as_deref(), Some("file"));
    assert_eq!(t.artist.as_deref(), Some("A"));
    assert_eq!((t.track, t.disc, t.year), (Some(3), Some(1), Some(1997)));
    assert_eq!(t.bitrate, Some(256));
    assert_eq!(t.codec.as_deref(), Some("AAC"));
    let t = read_tags(None, "file".into());
    assert_eq!(t.title.as_deref(), Some("file"));
    assert_eq!(t.codec, None);
    assert_eq!(codec_name(FileKind::Mp4, true), "ALAC");
    assert_eq!(codec_name(FileKind::Flac, true), "FLAC");
}

#[test]
fn lyrics_of_files() {
    assert_eq!(local_lyrics(Some("x".into()), Some("y".into()), None).as_deref(), Some("x"));
    assert_eq!(local_lyrics(Some(" ".into()), None, Some(" z ".into())).as_deref(), Some("z"));
    assert_eq!(local_lyrics(None, None, None), None);
}

#[test]
fn covers_of_folders_and_files() {
    let kinds = [PictureKind::Other, PictureKind::Declared, PictureKind::CoverFront];
    assert_eq!(front_picture(&kinds), Some(2));
    assert_eq!(front_picture(&kinds[..2]), Some(1));
    assert_eq!(front_picture(&kinds[..1]), Some(0));
    assert_eq!(front_picture(&[]), None);
    assert_eq!(folder_cover(&s(&["b.txt", "z.png", "Cover.JPG"])), Some(2));
    assert_eq!(folder_cover(&s(&["b.jpeg", "a.webp"])), Some(1));
    assert_eq!(folder_cover(&s(&["a.txt"])), None);
    assert!(is_disc_dir("CD1") && is_disc_dir("disc 2") && !is_disc_dir("Album"));
    assert_eq!(image_mime("PNG"), "image/png");
    assert_eq!(image_mime("jpeg"), "image/jpeg");
}

#[test]
fn albums_are_told_apart() {
    assert_eq!(fnv(""), 0xcbf29ce484222325);
    assert_eq!(fnv("a"), 0xaf63dc4c8601ec8c);
    assert_eq!(hex16(0xff), "00000000000000ff");
    assert_eq!(album_key("kind of blue", Some("miles davis"), "/m"), "kind of blue\u{1f}miles davis");
    let tags = |album: &str, aa: Option<&str>| TagInfo {
        album: Some(album.to_string()),
        album_artist: aa.map(str::to_string),
        ..Default::default()
    };
    // Tagged: directories do not matter. Untagged: they do.
    assert_eq!(
        album_id_for(&tags("Kind of Blue", Some("Miles Davis")), "/m/1"),
        album_id_for(&tags(" KIND OF BLUE", Some("miles davis ")), "/m/2")
    );
    assert_eq!(
        album_id_for(&tags("Hits", None), "/m/comp"),
        album_id_for(&tags("Hits", None), "/m/comp")
    );
    assert_ne!(
        album_id_for(&tags("Hits", None), "/m/comp"),
        album_id_for(&tags("Hits", None), "/m/other")
    );
}

#[test]
fn names_of_albums() {
    assert_eq!(album_title(Some("A".into()), Some("d".into())), "A");
    assert_eq!(album_title(Some(String::new()), Some("d".into())), "d");
    assert_eq!(album_title(None, None), "Unknown album");
    assert_eq!(album_artist_name(None, Some("X".into()), 2), "Various Artists");
    assert_eq!(album_artist_name(None, Some("X".into()), 1), "X");
    assert_eq!(album_artist_name(None, None, 0), "Unknown artist");
    assert_eq!(album_artist_name(Some("B".into()), Some("X".into()), 2), "B");
    assert!(is_hires(Some(96_000), None) && is_hires(None, Some(24)));
    assert!(!is_hires(Some(48_000), Some(16)));
    assert_eq!(AlbumSort::Title.order(), "MAX(t.album) COLLATE NOCASE");
    assert_eq!(TrackSort::Duration.order(), "t.duration_ms DESC");
}

fn file(path: &str, size: i64, mtime: i64) -> Scanned {
    Scanned { path: path.to_string(), size, mtime }
}

#[test]
fn scan_is_incremental_and_prunes() {
    assert!(is_supported("a.FLAC") && is_supported("b.mp3") && !is_supported("cover.jpg"));
    let found = vec![file("/r/al/a.flac", 15, 1), file("/r/al/b.mp3", 4, 1)];
    let plan = plan_scan(&vec![], &found, &s(&["/r"]));
    assert_eq!((plan.todo, plan.gone, plan.total), (vec![0, 1], vec![], 2));
    let known = vec![file("/r/al/a.flac", 15, 1), file("/r/al/b.mp3", 4, 1)];
    let plan = plan_scan(&known, &found, &s(&["/r"]));
    assert_eq!((plan.todo, plan.gone), (vec![], vec![]));
    let left = vec![file("/r/al/a.flac", 15, 2)];
    let plan = plan_scan(&known, &left, &s(&["/r"]));
    assert_eq!((plan.todo, plan.gone), (vec![0], vec![1]));
    // a missing root never prunes
    let plan = plan_scan(&known, &vec![], &s(&[]));
    assert!(plan.gone.is_empty());
    // a root is no mere prefix
    let plan = plan_scan(&known, &vec![], &s(&["/r/a"]));
    assert!(plan.gone.is_empty());
    assert_eq!(outside_roots(&s(&["/r/a", "/rest/b"]), &s(&["/r"])), [1]);
    assert_eq!(outside_roots(&s(&["/r/a"]), &s(&[])), [0]);
}

#[test]
fn scan_reports_count() {
    let mut r = ScanReport::default();
    assert!(!r.is_change());
    r.count(Some(true));
    r.count(Some(false));
    r.count(None);
    assert_eq!((r.added, r.updated, r.removed, r.total), (1, 1, 0, 0));
    assert!(r.is_change());
}

#[test]
fn paths_are_found_by_index() {
    let mut i = PathIndex::new();
    i.insert("/a");
    i.insert("/b");
    i.insert("/a");
    assert_eq!(i.len(), 2);
    assert_eq!(i.find("/b"), Some(1));
    assert_eq!(i.find("/c"), None);
}

#[test]
fn playlists_change_and_survive_files() {
    let p = added(s(&["/m/a/3.flac"]), s(&["/m/a/1.flac", "/m/a/2.flac"]));
    let p = moved(p, 0, 2);
    assert_eq!(p, ["/m/a/1.flac", "/m/a/2.flac", "/m/a/3.flac"]);
    let visible = p.clone();
    let p = removed(p, &visible, &vec![1]);
    assert_eq!(p, ["/m/a/1.flac", "/m/a/3.flac"]);
    let entries: Vec<M3uEntry> = p
        .iter()
        .map(|x| M3uEntry {
            duration_ms: 180_000,
            artist: Some("A".into()),
            title: "T".into(),
            path: x.clone(),
        })
        .collect();
    let text = export_m3u(&entries);
    assert!(text.starts_with("#EXTM3U\n#EXTINF:180,A - T\n/m/a/1.flac\n"));
    assert_eq!(import_m3u(&text, "/elsewhere"), p);
    assert_eq!(import_m3u("# x\n\nsub/a.flac\r\n", "/base"), ["/base/sub/a.flac"]);
    assert_eq!(moved(s(&["a"]), 0, 5), ["a"]);
}

#[test]
fn removal_takes_the_position() {
    let all = s(&["/m/a.flac", "/m/b.flac", "/m/a.flac"]);
    assert_eq!(removed(all.clone(), &all, &vec![2]), ["/m/a.flac", "/m/b.flac"]);
    assert_eq!(removed(all.clone(), &all, &vec![0, 0, 9]), ["/m/b.flac", "/m/a.flac"]);
    // What is no longer in the library is not shown, not counted and kept.
    let all = s(&["/gone", "/m/a.flac", "/gone", "/m/b.flac"]);
    let visible = s(&["/m/a.flac", "/m/b.flac"]);
    assert_eq!(removed(all.clone(), &visible, &vec![1]), ["/gone", "/m/a.flac", "/gone"]);
    assert_eq!(removed(all, &visible, &vec![1, 0]), ["/gone", "/gone"]);
}

#[test]
fn searches_are_prefix_queries() {
    assert_eq!(fts_query("miles kind").as_deref(), Some("\"miles\"* \"kind\"*"));
    assert_eq!(fts_query("Jóga \"x").as_deref(), Some("\"Jóga\"* \"x\"*"));
    assert_eq!(fts_query("  "), None);
    assert_eq!(fts_query("don't").as_deref(), Some("\"don't\"*"));
}

#[test]
fn search_results_keep_their_order() {
    let artist = |n: &str| Artist {
        name: n.to_string(),
        album_count: 1,
        track_count: 1,
        cover_path: String::new(),
    };
    let r = matching_artists(
        vec![artist("Air"), artist("Björk"), artist("Cher")],
        &s(&["cher", "BJÖRK"]),
    );
    let names: Vec<&str> = r.iter().map(|a| a.name.as_str()).collect();
    assert_eq!(names, ["Cher", "Björk"]);
    assert_eq!(albums_by_ids(&s(&["b", "x", "a"]), &s(&["a", "b"])), [1, 0]);
    assert_eq!(not_among(&s(&["a", "b", "c"]), &s(&["b"])), [0, 2]);
}

#[test]
fn changes_call_for_scans() {
    assert_eq!(watch_step(WatchEvent::Changed(Change::Modify)), WatchStep::Scan);
    assert_eq!(watch_step(WatchEvent::Changed(Change::Access)), WatchStep::Wait);
    assert_eq!(watch_step(WatchEvent::Quiet), WatchStep::Wait);
    assert_eq!(watch_step(WatchEvent::Gone), WatchStep::Stop);
}

fn png(w: u32, h: u32, rgb: [u8; 3]) -> Vec<u8> {
    let img = image::RgbImage::from_pixel(w, h, image::Rgb(rgb));
    let mut out = std::io::Cursor::new(Vec::new());
    img.write_to(&mut out, image::ImageFormat::Png).unwrap();
    out.into_inner()
}

#[test]
fn folder_art_thumbnails_and_misses() {
    let mut cache = CoverCache::new("/c");
    assert!(matches!(cache.thumb("k", 200, false), ThumbStep::Make(p) if p == "/c/k-200.jpg"));
    cache.note_miss("k");
    assert!(matches!(cache.thumb("k", 200, false), ThumbStep::Nothing));
    cache.forget_misses();
    assert!(matches!(cache.thumb("k", 200, false), ThumbStep::Make(_)));
    let jpeg = thumbnail(&png(600, 600, [200, 30, 30]), 200).unwrap();
    assert!(jpeg.starts_with(&[0xFF, 0xD8]));
    let img = image::load_from_memory(&jpeg).unwrap();
    assert_eq!((img.width(), img.height()), (200, 200));
}

#[test]
fn small_art_keeps_its_size() {
    let jpeg = thumbnail(&png(60, 30, [1, 2, 3]), 200).unwrap();
    let img = image::load_from_memory(&jpeg).unwrap();
    assert_eq!((img.width(), img.height()), (60, 30));
    assert!(thumbnail(b"no image", 200).is_none());
    // An image has one pixel at least.
    let jpeg = thumbnail(&png(60, 30, [1, 2, 3]), 0).unwrap();
    assert_eq!(image::load_from_memory(&jpeg).unwrap().width(), 1);
    assert!(needs_resize(201, 1, 200) && !needs_resize(200, 200, 200));
}

#[test]
fn covers_fill_their_place() {
    // Larger art fills the square, its middle kept.
    let (w, h, px) = cover_pixels(&png(400, 200, [200, 30, 30]), 96).unwrap();
    assert_eq!((w, h, px.len()), (96, 96, 4 * 96 * 96));
    assert_eq!(px[..4], [200, 30, 30, 255]);
    // Smaller art is shown as it is.
    let (w, h, px) = cover_pixels(&png(60, 30, [1, 2, 3]), 96).unwrap();
    assert_eq!((w, h), (60, 30));
    assert_eq!(px[px.len() - 4..], [1, 2, 3, 255]);
    assert!(cover_pixels(b"no image", 96).is_none());
}

#[test]
fn wide_art_fits() {
    let jpeg = thumbnail(&png(1000, 10, [9, 9, 9]), 100).unwrap();
    let img = image::load_from_memory(&jpeg).unwrap();
    assert_eq!((img.width(), img.height()), (100, 1));
}

#[test]
fn online_original_is_used_and_invalidates_thumbs() {
    let mut cache = CoverCache::new("/c");
    cache.note_miss("alb");
    cache.note_miss("other");
    cache.put_original("alb");
    assert!(matches!(cache.thumb("alb", 64, false), ThumbStep::Make(_)));
    assert!(matches!(cache.thumb("other", 64, false), ThumbStep::Nothing));
    assert!(cache.is_stale("alb", "alb-64.jpg") && !cache.is_stale("alb", "alb-orig"));
    assert!(!cache.is_stale("alb", "album-64.jpg"));
    assert_eq!(cache.original_path("a/b"), "/c/a_b-orig");
    assert_eq!(sanitize("a/../é"), "a_____");
}

#[test]
fn roundtrip_and_partial_files() {
    let c = Config::default();
    assert_eq!(c.audio.device, "default");
    assert_eq!(c.network.name, "ricercar");
    assert_eq!(c.audio.replaygain, ReplayGain::Off);
    let mut read = Config::default();
    read.audio.replaygain = ReplayGain::Album;
    let c = Config::load(ConfigFile::Read(read), None);
    assert_eq!(c.audio.replaygain, ReplayGain::Album);
    let c = Config::load(ConfigFile::Missing, Some("/home/u/Music".into()));
    assert_eq!(c.library.roots, ["/home/u/Music"]);
    assert!(c.library.watch);
    let c = Config::load(ConfigFile::Malformed, Some("/home/u/Music".into()));
    assert!(c.library.roots.is_empty());
}

#[test]
fn directories_follow_the_environment() {
    assert_eq!(config_dir(Some("/x"), Some("/home/u"), "/tmp"), "/x/ricercar");
    assert_eq!(data_dir(Some(""), Some("/home/u"), "/tmp"), "/home/u/.local/share/ricercar");
    assert_eq!(cache_dir(None, None, "/tmp"), "/tmp/ricercar");
    assert_eq!(
        music_candidates("XDG_MUSIC_DIR=\"$HOME/Musik\"\n", "/home/u"),
        ["/home/u/Musik", "/home/u/Music"]
    );
    let dirs: Vec<String> = s(&["/home/u/", "/home/u/Music"]);
    let choose = |a, b| default_music_dir(&dirs, &vec![a, b], "/home/u");
    assert_eq!(choose(true, true).as_deref(), Some("/home/u/Music"));
    assert_eq!(choose(true, false), None);
    let dirs: Vec<String> = s(&["/m", "/home/u/Music"]);
    assert_eq!(default_music_dir(&dirs, &vec![true, true], "/home/u").as_deref(), Some("/m"));
}

#[test]
fn cover_hints_point_somewhere() {
    let file = |p: CoverPlace| match p {
        CoverPlace::File(f) => Some(f),
        _ => None,
    };
    assert_eq!(
        file(cover_place("file:///m/a%20b.flac", false)),
        Some("/m/a b.flac".to_string())
    );
    assert!(matches!(cover_place("file:relative", true), CoverPlace::Nowhere));
    assert_eq!(file(cover_place("/m/a.flac", true)), Some("/m/a.flac".to_string()));
    assert!(matches!(cover_place("/m/a.flac", false), CoverPlace::Nowhere));
    assert!(matches!(cover_place("https://x/y.jpg", false), CoverPlace::Web));
}
