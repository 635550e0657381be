use ricercar::online::digest::md5_hex;
use ricercar::online::error::OnlineError;
use ricercar::online::lrclib::{
    best_match, get, get_query, search_query, to_lyrics, Candidate, GetStep, Record,
};
use ricercar::online::lyrics::{
    line_at, parse_lrc, parse_timestamp, LyricLine, Lyrics, LyricsSource,
};
use ricercar::online::lyrics_cache::{
    fetch_cached, CacheLookup, FetchStep, LyricsCache, NEGATIVE_TTL_SECS,
};

fn times(lines: &[LyricLine]) -> Vec<u64> {
    lines.iter().map(|l| l.time_ms).collect()
}

fn texts(lines: &[LyricLine]) -> Vec<&str> {
    lines.iter().map(|l| l.text.as_str()).collect()
}

fn stamp(s: &str) -> Option<u64> {
    parse_timestamp(&s.chars().collect::<Vec<char>>())
}

#[test]
fn timestamp_formats() {
    assert_eq!(stamp("00:00"), Some(0));
    assert_eq!(stamp("01:02"), Some(62_000));
    assert_eq!(stamp("01:02.5"), Some(62_500));
    assert_eq!(stamp("01:02.34"), Some(62_340));
    assert_eq!(stamp("01:02.345"), Some(62_345));
    assert_eq!(stamp("01:02.3456"), Some(62_345));
    assert_eq!(stamp("01:02:34"), Some(62_340));
    assert_eq!(stamp("123:00.00"), Some(7_380_000));
    assert_eq!(stamp("1:5.1"), Some(65_100));
}

#[test]
fn invalid_timestamps() {
    for t in [
        "ar:Artist",
        "",
        "00",
        "00:60",
        "aa:10",
        "00:1a",
        "00:10.x",
        "00:10.",
        "-1:00",
        "00:100",
        "00:01.00:00",
        "offset:+100",
    ] {
        assert_eq!(stamp(t), None, "{t:?}");
    }
}

#[test]
fn basic_file_with_metadata() {
    let lrc = "\u{feff}[ar:Björk]\r\n[ti:Jóga]\r\n[al:Homogenic]\r\n[by:someone]\r\n[length: 05:05]\r\n\
               [00:12.00]All these accidents\r\n[00:17.20]That happen\r\n";
    let lines = parse_lrc(lrc);
    assert_eq!(times(&lines), [12_000, 17_200]);
    assert_eq!(texts(&lines), ["All these accidents", "That happen"]);
}

#[test]
fn multiple_timestamps_per_line_are_sorted() {
    let lrc = "[00:10.00]Verse\n[00:05.00][00:20.00]Chorus\n[00:15.00]Bridge";
    let lines = parse_lrc(lrc);
    assert_eq!(times(&lines), [5_000, 10_000, 15_000, 20_000]);
    assert_eq!(texts(&lines), ["Chorus", "Verse", "Bridge", "Chorus"]);
}

#[test]
fn positive_offset_shows_lyrics_earlier() {
    let lines = parse_lrc("[offset:+500]\n[00:10.00]a\n[00:00.20]b");
    assert_eq!(times(&lines), [0, 9_500]);
}

#[test]
fn negative_offset_delays_lyrics() {
    let lines = parse_lrc("[00:10.00]a\n[offset: -250]");
    assert_eq!(times(&lines), [10_250]);
}

#[test]
fn bad_offset_is_ignored() {
    let lines = parse_lrc("[offset:abc]\n[00:01.00]a");
    assert_eq!(times(&lines), [1_000]);
}

#[test]
fn empty_lines_are_kept_and_untimed_lines_dropped() {
    let lines = parse_lrc("plain text\n[00:01.00]\n[00:02.00]  hello  \n\n");
    assert_eq!(texts(&lines), ["", "hello"]);
}

#[test]
fn bracket_text_after_timestamp_is_text() {
    let lines = parse_lrc("[00:01.00][Chorus] la la");
    assert_eq!(texts(&lines), ["[Chorus] la la"]);
}

#[test]
fn unterminated_bracket() {
    let lines = parse_lrc("[00:01.00]a [b\n[00:02.00\n[00:03");
    assert_eq!(texts(&lines), ["a [b"]);
}

#[test]
fn enhanced_word_stamps_are_stripped() {
    let lines = parse_lrc("[00:01.00]<00:01.00>Hello <00:01.50>world <b>");
    assert_eq!(texts(&lines), ["Hello world <b>"]);
}

#[test]
fn equal_times_keep_file_order() {
    let lines = parse_lrc("[00:01.00]first\n[00:01.00]second");
    assert_eq!(texts(&lines), ["first", "second"]);
}

#[test]
fn empty_input() {
    assert!(parse_lrc("").is_empty());
    assert!(parse_lrc("[ar:x]\n[ti:y]").is_empty());
}

#[test]
fn fixture_file() {
    let lrc = "[ar:Borislav Slavov]\n[ti:I Want to Live]\n[offset:+120]\n\
               [00:17.12]I feel your breath upon my neck\n\
               [00:21.00]one\n\
               [00:25.50]two\n\
               [00:29.00]three\n\
               [00:33.00]\n\
               [00:37.00]four\n\
               [00:41.00]five\n\
               [00:45.00]It's not my fault\n";
    let lines = parse_lrc(lrc);
    assert_eq!(lines.len(), 8);
    assert_eq!(lines[4].text, "");
    assert_eq!(lines[7].text, "It's not my fault");
    assert!(lines.windows(2).all(|w| w[0].time_ms <= w[1].time_ms));
    assert_eq!(lines[0].text, "I feel your breath upon my neck");
    assert_eq!(lines[0].time_ms, 17_120 - 120);
}

#[test]
fn line_at_binary_search() {
    let lines = parse_lrc("[00:01.00]a\n[00:02.00]b\n[00:02.00]c\n[00:05.00]d");
    assert_eq!(line_at(&lines, 0), None);
    assert_eq!(line_at(&lines, 999), None);
    assert_eq!(line_at(&lines, 1_000), Some(0));
    assert_eq!(line_at(&lines, 1_999), Some(0));
    assert_eq!(line_at(&lines, 2_000), Some(2));
    assert_eq!(line_at(&lines, 4_999), Some(2));
    assert_eq!(line_at(&lines, 60_000), Some(3));
    assert_eq!(line_at(&[], 1_000), None);
}

fn lyrics() -> Lyrics {
    Lyrics {
        synced: Some(parse_lrc("[00:01.00]hi")),
        plain: Some("hi".into()),
        source: LyricsSource::Lrclib,
        instrumental: false,
    }
}

#[test]
fn key_is_stable_and_normalized() {
    let a = LyricsCache::key("Björk", "Jóga", Some("Homogenic"), Some(305));
    let b = LyricsCache::key("  björk ", "JÓGA", Some("homogenic"), Some(305));
    assert_eq!(a, b);
    assert_eq!(a.len(), 32);
    // Pinned so that a change of hashing scheme is a deliberate decision.
    assert_eq!(
        LyricsCache::key("a", "b", None, None),
        md5_hex(b"a|b||")
    );
    assert_ne!(
        a,
        LyricsCache::key("Björk", "Jóga", Some("Homogenic"), Some(306))
    );
    assert_ne!(a, LyricsCache::key("Björk", "Jóga", None, Some(305)));
}

#[test]
fn a_blank_album_has_the_key_of_none() {
    let none = LyricsCache::key("a", "b", None, None);
    assert_eq!(LyricsCache::key("a", "b", Some(""), None), none);
    assert_eq!(LyricsCache::key("a", "b", Some(" \t "), None), none);
    assert_eq!(LyricsCache::key("a", " ", Some("x"), None), md5_hex(b"a||x|"));
}

#[test]
fn hit_and_miss() {
    let cache = LyricsCache::new("/c/lyrics".into());
    let key = LyricsCache::key("a", "b", None, None);
    assert_eq!(cache.path(&key), format!("/c/lyrics/{key}.json"));
    assert!(matches!(LyricsCache::lookup(None, 0), CacheLookup::Miss));
    let e = LyricsCache::store(Some(lyrics()), 1_000);
    // Positive entries never expire.
    let hit = LyricsCache::lookup(Some(e), 1_000 + 10 * NEGATIVE_TTL_SECS);
    let CacheLookup::Hit(l) = &hit else {
        panic!("{hit:?}")
    };
    assert_eq!(l.plain.as_deref(), Some("hi"));
    assert!(matches!(fetch_cached(hit), FetchStep::Known(Some(_))));
    assert!(matches!(fetch_cached(CacheLookup::KnownMissing), FetchStep::Known(None)));
    assert!(matches!(fetch_cached(CacheLookup::Miss), FetchStep::Ask));
}

#[test]
fn answers_are_kept_and_failures_are_not() {
    let found = LyricsCache::entry_of(Ok(Some(lyrics())), 1_000);
    assert!(matches!(LyricsCache::lookup(found, 9_000_000), CacheLookup::Hit(_)));
    let missing = LyricsCache::entry_of(Ok(None), 1_000);
    assert!(matches!(LyricsCache::lookup(missing, 1_000), CacheLookup::KnownMissing));
    assert!(LyricsCache::entry_of(Err(OnlineError::Network("down".into())), 1_000).is_none());
    let cache = LyricsCache::new("/c".into());
    assert_ne!(cache.path("a"), cache.path("b"));
}

#[test]
fn the_offset_line_may_stand_anywhere() {
    let first = parse_lrc("[offset:500]\n[00:02]b\n[00:01][00:03]a\nno stamp\n[ar:x]");
    let last = parse_lrc("[00:02]b\n[00:01][00:03]a\nno stamp\n[ar:x]\n[offset:500]");
    assert_eq!(times(&first), [500, 1_500, 2_500]);
    assert_eq!(texts(&first), ["a", "b", "a"]);
    assert_eq!((times(&first), texts(&first)), (times(&last), texts(&last)));
    // A tag behind a time stamp is text.
    assert_eq!(texts(&parse_lrc("[00:01][ar:x][00:02]t")), ["[ar:x][00:02]t"]);
}

#[test]
fn negative_entries_expire_after_ttl() {
    let at = |now| LyricsCache::lookup(Some(LyricsCache::store(None, 1_000)), now);
    assert!(matches!(at(1_000), CacheLookup::KnownMissing));
    assert!(matches!(
        at(1_000 + NEGATIVE_TTL_SECS - 1),
        CacheLookup::KnownMissing
    ));
    assert!(matches!(at(1_000 + NEGATIVE_TTL_SECS), CacheLookup::Miss));
}

fn record(synced: Option<&str>, plain: Option<&str>) -> Record {
    Record {
        instrumental: false,
        plain_lyrics: plain.map(str::to_string),
        synced_lyrics: synced.map(str::to_string),
    }
}

#[test]
fn get_fixture_parses() {
    let r = record(
        Some("[00:17.12] I feel your breath upon my neck\n[00:20.00] x"),
        Some("I feel your breath upon my neck\nx"),
    );
    let l = to_lyrics(r).unwrap();
    assert_eq!(l.source, LyricsSource::Lrclib);
    let synced = l.synced.unwrap();
    assert_eq!(synced[0].time_ms, 17_120);
    assert_eq!(synced[0].text, "I feel your breath upon my neck");
    assert!(l.plain.unwrap().starts_with("I feel your breath"));
    assert!(!l.instrumental);
}

#[test]
fn instrumental_record() {
    let l = to_lyrics(Record {
        instrumental: true,
        ..record(None, None)
    })
    .unwrap();
    assert!(l.instrumental);
    assert!(l.synced.is_none() && l.plain.is_none());
}

#[test]
fn record_without_lyrics_is_none() {
    assert!(to_lyrics(record(Some(""), Some("  "))).is_none());
}

/// 282 s synced, 233 s plain-only, 234.5 s synced, 36 s synced, 233 s without
/// any lyrics, no duration synced.
fn search(wanted: Option<f64>) -> (Vec<Candidate>, Vec<Option<f64>>) {
    let durations = vec![Some(282.0), Some(233.0), Some(234.5), Some(36.0), Some(233.0), None];
    let records = [
        record(Some("[00:01.00]a"), None),
        record(None, Some("a")),
        record(Some("[00:01.00]a"), None),
        record(Some("[00:01.00]a"), None),
        record(None, None),
        record(Some("[00:01.00]a"), None),
    ];
    let candidates = records
        .into_iter()
        .zip(&durations)
        .map(|(record, d)| Candidate {
            record,
            distance: match (wanted, d) {
                (Some(w), Some(d)) => Some((w - d).abs().to_bits()),
                (Some(_), None) => None,
                (None, _) => Some(0.0f64.to_bits()),
            },
        })
        .collect();
    (candidates, durations)
}

#[test]
fn best_match_prefers_synced_within_tolerance() {
    let (c, d) = search(Some(233.0));
    let best = best_match(&c).unwrap();
    assert_eq!(d[best], Some(234.5));
    assert!(c[best].record.synced_lyrics.is_some());
}

#[test]
fn best_match_falls_back_to_plain() {
    let (mut c, mut d) = search(Some(233.0));
    c.remove(2);
    d.remove(2);
    let best = best_match(&c).unwrap();
    assert_eq!(d[best], Some(233.0));
    assert!(c[best].record.synced_lyrics.is_none());
}

#[test]
fn best_match_nothing_close_enough() {
    assert!(best_match(&search(Some(100.0)).0).is_none());
    assert!(best_match(&Vec::new()).is_none());
}

#[test]
fn best_match_without_duration_takes_first_synced() {
    let (c, d) = search(None);
    let best = best_match(&c).unwrap();
    assert_eq!(d[best], Some(282.0));
}

#[test]
fn lookups_fall_back_to_a_search() {
    assert!(matches!(get(Ok(record(None, Some("x")))), GetStep::Found(_)));
    assert!(matches!(get(Ok(record(None, None))), GetStep::Search));
    let gone = OnlineError::Http { status: 404, body: String::new() };
    assert!(matches!(get(Err(gone)), GetStep::Search));
    assert!(matches!(
        get(Err(OnlineError::Network("x".into()))),
        GetStep::Failed(OnlineError::Network(_))
    ));
    let q = get_query("A", "T", Some(" "), Some(233));
    let names: Vec<&str> = q.iter().map(|x| x.0.as_str()).collect();
    assert_eq!(names, ["artist_name", "track_name", "duration"]);
    assert_eq!(search_query("A", "T").len(), 2);
}
