use ricercar::online::coverart::{
    best_release, cover_reply, find_release, front_cover, lucene_escape, musicbrainz_limiter,
    release_query, CoverSize, CoverStep, MbCredit, MbRelease, RateLimiter, ReleaseRef,
};
use ricercar::online::digest::md5_hex;
use ricercar::online::error::OnlineError;
use ricercar::online::http::{is_not_found, send, truncate, Outcome, USER_AGENT};
use ricercar::online::lastfm::{
    api_error, api_signature, check_reply, parse_scrobble_outcome, push_track_params, read_count,
    service_error, signature_text, LastFm, ScrobbleOutcome,
};
use ricercar::online::listenbrainz::{
    listen_payload, parse_validate, submit_reply, submit_sent, validate_reply, ListenBrainz,
    ListenType, ValidateResponse,
};
use ricercar::online::radio::{
    filter_hls, parse_click, pick_server, ClickResponse, FlagField, RadioBrowser, RawStation,
    Station, StationOrder, StationQuery, TagsField,
};
use ricercar::online::scrobble::{Scrobble, ScrobbleTrack};
use ricercar::online::sending::{sent, start_sending, SendStep};

type Params = Vec<(String, String)>;

fn p(pairs: &[(&str, &str)]) -> Params {
    pairs
        .iter()
        .map(|(k, v)| (k.to_string(), v.to_string()))
        .collect()
}

#[test]
fn transient_classification() {
    assert!(OnlineError::Network("x".into()).is_transient());
    let http = |status| OnlineError::Http {
        status,
        body: String::new(),
    };
    assert!(http(503).is_transient());
    assert!(http(429).is_transient());
    assert!(!http(400).is_transient());
    assert!(!OnlineError::Auth("bad".into()).is_transient());
    assert!(!OnlineError::NotConfigured.is_transient());
    assert_eq!(http(404).message(), "HTTP 404: ");
    assert_eq!(OnlineError::Io("x".into()).message(), "I/O error: x");
}

#[test]
fn truncate_respects_char_boundaries() {
    assert_eq!(truncate("abc".into(), 10), "abc");
    assert_eq!(truncate("abcdef".into(), 3), "abc…");
    // 'é' is two bytes; cutting at 1 must back off to 0.
    assert_eq!(truncate("éé".into(), 1), "…");
}

#[test]
fn user_agent_format() {
    assert!(USER_AGENT.starts_with("ricercar/0.3 ("));
}

#[test]
fn answers_become_errors() {
    assert_eq!(send(Outcome::Body("ok".into())).unwrap(), "ok");
    let e = send(Outcome::Status { status: 404, body: "x".repeat(600) }).unwrap_err();
    assert!(is_not_found(&e));
    assert!(matches!(&e, OnlineError::Http { body, .. } if body.len() == 512 + "…".len()));
    assert!(matches!(
        send(Outcome::Transport("dns".into())),
        Err(OnlineError::Network(m)) if m == "dns"
    ));
}

#[test]
fn md5_known_vectors() {
    assert_eq!(md5_hex(b""), "d41d8cd98f00b204e9800998ecf8427e");
    assert_eq!(md5_hex(b"abc"), "900150983cd24fb0d6963f7d28e17f72");
}

#[test]
fn signature_simple_vector() {
    // md5("api_keyxxxxxxxxmethodauth.getSessiontokenyyyyyyyyilovecher"),
    // computed with `printf '%s' ... | md5sum`.
    let params = p(&[
        ("token", "yyyyyyyy"),
        ("method", "auth.getSession"),
        ("api_key", "xxxxxxxx"),
        ("format", "json"),
        ("callback", "cb"),
    ]);
    assert_eq!(
        api_signature(&params, "ilovecher"),
        "50b30c3b138fd7e02ae9d9f4b3e84c30"
    );
    assert_eq!(
        signature_text(&params, "ilovecher"),
        "api_keyxxxxxxxxmethodauth.getSessiontokenyyyyyyyyilovecher"
    );
}

#[test]
fn signature_batch_utf8_vector() {
    // md5 (via `printf '%s' ... | md5sum`) of the sorted string:
    // "album[0]Ç Vapi_keyKartist[0]Björkartist[1]Sigur Rósmethodtrack.scrobble
    //  sksesstimestamp[0]100timestamp[1]200track[0]Jógatrack[1]HoppípollaS"
    let params = p(&[
        ("method", "track.scrobble"),
        ("api_key", "K"),
        ("sk", "sess"),
        ("artist[0]", "Björk"),
        ("track[0]", "Jóga"),
        ("timestamp[0]", "100"),
        ("album[0]", "Ç V"),
        ("artist[1]", "Sigur Rós"),
        ("track[1]", "Hoppípolla"),
        ("timestamp[1]", "200"),
        ("format", "json"),
    ]);
    assert_eq!(
        api_signature(&params, "S"),
        "efb1592d756c61e8b61c944c38eb64ce"
    );
}

#[test]
fn signatures_do_not_depend_on_order_or_format() {
    let a = p(&[("b", "2"), ("a", "1")]);
    let b = p(&[("a", "1"), ("b", "2"), ("format", "json")]);
    assert_eq!(api_signature(&a, "s"), api_signature(&b, "s"));
    let c = p(&[("a", "1"), ("callback", "x"), ("b", "2")]);
    assert_eq!(api_signature(&a, "s"), api_signature(&c, "s"));
    assert_ne!(api_signature(&a, "s"), api_signature(&a, "t"));
}

fn track() -> ScrobbleTrack {
    ScrobbleTrack {
        artist: "Björk".into(),
        title: "Jóga".into(),
        album: Some("Homogenic".into()),
        album_artist: None,
        duration_ms: 305_900,
        track_number: Some(2),
        mbid: Some(String::new()),
    }
}

#[test]
fn batch_params_are_indexed() {
    let mut params = Vec::new();
    push_track_params(&mut params, &track(), Some((3, 1_000)));
    assert_eq!(
        params,
        p(&[
            ("artist[3]", "Björk"),
            ("track[3]", "Jóga"),
            ("timestamp[3]", "1000"),
            ("album[3]", "Homogenic"),
            ("trackNumber[3]", "2"),
            ("duration[3]", "305"),
        ])
    );
}

#[test]
fn now_playing_params_are_plain() {
    let mut params = Vec::new();
    let t = ScrobbleTrack {
        album_artist: Some("Björk".into()),
        duration_ms: 0,
        track_number: None,
        ..track()
    };
    push_track_params(&mut params, &t, None);
    assert_eq!(
        params,
        p(&[
            ("artist", "Björk"),
            ("track", "Jóga"),
            ("album", "Homogenic"),
            ("albumArtist", "Björk"),
        ])
    );
}

#[test]
fn auth_url_format() {
    let fm = LastFm::new("KEY", "SECRET");
    assert_eq!(
        fm.auth_url("TOK"),
        "https://www.last.fm/api/auth/?api_key=KEY&token=TOK"
    );
}

#[test]
fn calls_are_signed() {
    let fm = LastFm::new(" xxxxxxxx ", "ilovecher");
    let form = fm.get_session("yyyyyyyy").unwrap();
    assert_eq!(
        form,
        p(&[
            ("token", "yyyyyyyy"),
            ("method", "auth.getSession"),
            ("api_key", "xxxxxxxx"),
            ("api_sig", "50b30c3b138fd7e02ae9d9f4b3e84c30"),
            ("format", "json"),
        ])
    );
    let batch = [
        Scrobble { track: track(), started_at_unix: 100 },
        Scrobble { track: track(), started_at_unix: 200 },
    ];
    let form = fm.scrobble_batch("sess", &batch).unwrap();
    assert_eq!(form[0], ("sk".to_string(), "sess".to_string()));
    assert!(form.contains(&("timestamp[1]".to_string(), "200".to_string())));
    let many: Vec<Scrobble> = (0..51)
        .map(|n| Scrobble { track: track(), started_at_unix: n })
        .collect();
    let forms = fm.scrobble("sess", &many).unwrap();
    assert_eq!(forms.len(), 2);
    assert!(forms[1].contains(&("timestamp[0]".to_string(), "50".to_string())));
    assert!(!forms[1].iter().any(|p| p.0 == "timestamp[1]"));
    assert!(LastFm::new("", "").scrobble("sess", &[]).unwrap().is_empty());
    assert!(matches!(LastFm::new("", "").scrobble("sess", &many), Err(OnlineError::NotConfigured)));
    let form = fm.update_now_playing("sess", &track()).unwrap();
    assert!(form.contains(&("method".to_string(), "track.updateNowPlaying".to_string())));
}

#[test]
fn scrobble_outcome_parsing() {
    assert_eq!(
        parse_scrobble_outcome(
            r#"{"scrobbles":{"scrobble":[],"@attr":{"accepted":2,"ignored":"1"}}}"#
        ),
        ScrobbleOutcome {
            accepted: 2,
            ignored: 1
        }
    );
    assert_eq!(parse_scrobble_outcome("null"), ScrobbleOutcome::default());
    assert_eq!(read_count(None, &Some("7".to_string())), 7);
    assert_eq!(read_count(None, &Some("x".to_string())), 0);
    let mut sum = ScrobbleOutcome::default();
    sum.combine(ScrobbleOutcome { accepted: 50, ignored: 0 });
    sum.combine(ScrobbleOutcome { accepted: 1, ignored: 2 });
    assert_eq!(sum, ScrobbleOutcome { accepted: 51, ignored: 2 });
}

#[test]
fn api_error_mapping() {
    let e = api_error(r#"{"error":14,"message":"Unauthorized Token"}"#).unwrap();
    assert!(matches!(e, OnlineError::Auth(m) if m.contains("14")));
    let e = api_error(r#"{"error":29,"message":"Rate limit exceeded"}"#).unwrap();
    assert!(e.is_transient());
    let e = api_error(r#"{"error":6,"message":"Invalid parameters"}"#).unwrap();
    assert!(matches!(e, OnlineError::Http { status: 400, .. }));
    assert!(api_error(r#"{"token":"abc"}"#).is_none());
    assert!(api_error("<html>").is_none());
    let e = service_error(4, "no");
    assert!(matches!(e, OnlineError::Auth(m) if m == "Last.fm error 4: no"));
}

#[test]
fn replies_are_checked() {
    assert_eq!(check_reply(Ok("{\"a\":1}".into())).unwrap(), "{\"a\":1}");
    assert!(matches!(check_reply(Ok("<html>".into())), Err(OnlineError::Parse(_))));
    assert!(matches!(
        check_reply(Ok(r#"{"error":9,"message":"x"}"#.into())),
        Err(OnlineError::Auth(_))
    ));
    let http = OnlineError::Http { status: 403, body: r#"{"error":11,"message":"off"}"#.into() };
    assert!(check_reply(Err(http)).unwrap_err().is_transient());
    let plain = OnlineError::Http { status: 403, body: "no".into() };
    assert!(matches!(check_reply(Err(plain)), Err(OnlineError::Http { status: 403, .. })));
}

#[test]
fn missing_credentials_are_not_configured() {
    let fm = LastFm::new("", "secret");
    assert!(matches!(fm.get_token(), Err(OnlineError::NotConfigured)));
}

fn airbag() -> ScrobbleTrack {
    ScrobbleTrack {
        artist: "Radiohead".into(),
        title: "Airbag".into(),
        album: Some("OK Computer".into()),
        album_artist: Some("Radiohead".into()),
        duration_ms: 284_000,
        track_number: Some(1),
        mbid: Some("1a2b".into()),
    }
}

#[test]
fn single_listen_payload() {
    let v = listen_payload(
        ListenType::Single,
        &[Scrobble { track: airbag(), started_at_unix: 1_700_000_000 }],
    );
    assert_eq!(v.listen_type.as_str(), "single");
    let l = &v.listens[0];
    assert_eq!(l.listened_at, Some(1_700_000_000));
    assert_eq!(l.artist_name, "Radiohead");
    assert_eq!(l.track_name, "Airbag");
    assert_eq!(l.release_name.as_deref(), Some("OK Computer"));
    assert_eq!(l.duration_ms, Some(284_000));
    assert_eq!(l.tracknumber, Some(1));
    assert_eq!(l.recording_mbid.as_deref(), Some("1a2b"));
    assert_eq!((l.media_player, l.submission_client), ("ricercar", "ricercar"));
    assert_eq!(l.submission_client_version, "0.3.0");
}

#[test]
fn playing_now_has_no_timestamp_and_skips_empty_fields() {
    let t = ScrobbleTrack {
        album: Some("  ".into()),
        duration_ms: 0,
        track_number: None,
        mbid: None,
        ..airbag()
    };
    let v = ListenBrainz::new("t").playing_now(&t).unwrap();
    assert_eq!(v.listen_type.as_str(), "playing_now");
    let l = &v.listens[0];
    assert!(l.listened_at.is_none());
    assert!(l.release_name.is_none());
    assert!(l.duration_ms.is_none());
    assert!(l.tracknumber.is_none());
}

#[test]
fn import_payload_keeps_order() {
    let s = |n| Scrobble { track: airbag(), started_at_unix: n };
    let v = listen_payload(ListenType::Import, &[s(1), s(2)]);
    assert_eq!(v.listen_type.as_str(), "import");
    assert_eq!(v.listens[1].listened_at, Some(2));
}

#[test]
fn submissions_come_in_batches() {
    let lb = ListenBrainz::new("t");
    let s: Vec<Scrobble> = (0..201)
        .map(|n| Scrobble { track: airbag(), started_at_unix: n })
        .collect();
    let v = lb.submit(&s).unwrap();
    let sizes: Vec<usize> = v.iter().map(|x| x.listens.len()).collect();
    assert_eq!(sizes, [100, 100, 1]);
    assert_eq!(v[0].listen_type, ListenType::Import);
    assert_eq!(v[2].listen_type, ListenType::Single);
    assert_eq!(v[2].listens[0].listened_at, Some(200));
    assert!(lb.submit(&[]).unwrap().is_empty());
    assert!(ListenBrainz::new("").submit(&[]).unwrap().is_empty());
}

#[test]
fn validate_response_parsing() {
    let ok = ValidateResponse { valid: true, user_name: Some("pata".into()) };
    assert_eq!(parse_validate(ok).as_deref(), Some("pata"));
    let bad = ValidateResponse { valid: false, user_name: None };
    assert_eq!(parse_validate(bad), None);
    let rejected = OnlineError::Http { status: 401, body: "x".into() };
    assert_eq!(validate_reply(Err(rejected)).unwrap(), None);
    let rejected = OnlineError::Http { status: 401, body: "x".into() };
    assert!(matches!(submit_reply(Err(rejected)), Err(OnlineError::Auth(m)) if m == "x"));
    assert!(submit_reply(Ok(String::new())).is_ok());
}

#[test]
fn empty_token_is_not_configured() {
    let lb = ListenBrainz::new("  ");
    assert!(matches!(
        lb.playing_now(&airbag()),
        Err(OnlineError::NotConfigured)
    ));
    assert!(matches!(
        lb.validate_token(),
        Err(OnlineError::NotConfigured)
    ));
}

#[test]
fn base_url_normalized() {
    let lb = ListenBrainz::new("t").with_base_url("http://localhost:8100/");
    assert_eq!(lb.base_url(), "http://localhost:8100");
    let (url, auth) = lb.validate_token().unwrap();
    assert_eq!(url, "http://localhost:8100/1/validate-token");
    assert_eq!(auth, "Token t");
    assert_eq!(lb.submit_target().unwrap().0, "http://localhost:8100/1/submit-listens");
}

#[test]
fn escaping() {
    assert_eq!(lucene_escape("AC/DC"), "AC\\/DC");
    assert_eq!(
        lucene_escape(r#"a+b-c&&d||e!(f){g}[h]^"i"~j*k?l:m\n"#),
        r#"a\+b\-c\&\&d\|\|e\!\(f\)\{g\}\[h\]\^\"i\"\~j\*k\?l\:m\\n"#
    );
    assert_eq!(lucene_escape("Sigur Rós"), "Sigur Rós");
}

#[test]
fn query_building() {
    assert_eq!(
        release_query(" AC/DC ", "Highway to Hell"),
        r#"release:"Highway to Hell" AND artist:"AC\/DC""#
    );
}

fn release(id: &str, score: u32, title: &str, credit: &[(&str, &str)]) -> MbRelease {
    MbRelease {
        id: id.into(),
        score,
        title: title.into(),
        date: None,
        artist_credit: credit
            .iter()
            .map(|(n, j)| MbCredit { name: n.to_string(), joinphrase: j.to_string() })
            .collect(),
        release_group: None,
    }
}

#[test]
fn picks_best_scored_release() {
    let mut best = release(
        "4b3d18cc-8937-36f4-8de0-481088be58e6",
        100,
        "OK Computer",
        &[("Radiohead", "")],
    );
    best.release_group = Some("b1392450-e666-3926-a536-22c65f834433".into());
    best.date = Some("1997-06-17".into());
    let tie = release("later", 100, "OK Computer", &[("Radiohead", "")]);
    let r = best_release(&vec![release("low", 95, "X", &[]), best, tie]).unwrap();
    assert_eq!(r.mbid, "4b3d18cc-8937-36f4-8de0-481088be58e6");
    assert_eq!(
        r.release_group_mbid.as_deref(),
        Some("b1392450-e666-3926-a536-22c65f834433")
    );
    assert_eq!(r.title, "OK Computer");
    assert_eq!(r.artist, "Radiohead");
    assert_eq!(r.date.as_deref(), Some("1997-06-17"));
}

#[test]
fn joins_artist_credits_and_prefers_higher_score() {
    let mut b = release("b", 97, "Y", &[("Simon", " & "), ("Garfunkel", "")]);
    b.date = Some(String::new());
    let r = best_release(&vec![release("a", 92, "X", &[("A", "")]), b]).unwrap();
    assert_eq!(r.mbid, "b");
    assert_eq!(r.artist, "Simon & Garfunkel");
    assert_eq!(r.date, None);
    assert_eq!(r.release_group_mbid, None);
}

#[test]
fn low_scores_are_rejected() {
    assert!(best_release(&vec![release("a", 89, "X", &[])]).is_none());
    assert!(best_release(&vec![]).is_none());
}

#[test]
fn empty_input_skips_network() {
    assert_eq!(find_release("", "Album"), None);
    assert_eq!(find_release("Artist", "  "), None);
    let r = find_release("A", "B").unwrap();
    assert_eq!(r.url, "https://musicbrainz.org/ws/2/release/");
    assert_eq!(
        r.query,
        p(&[
            ("query", r#"release:"B" AND artist:"A""#),
            ("fmt", "json"),
            ("limit", "10"),
        ])
    );
}

#[test]
fn cover_sizes() {
    assert_eq!(CoverSize::S250.pixels(), 250);
    assert_eq!(CoverSize::S500.pixels(), 500);
    assert_eq!(CoverSize::S1200.pixels(), 1200);
}

#[test]
fn covers_are_looked_for_twice() {
    let r = ReleaseRef {
        mbid: "m".into(),
        release_group_mbid: Some("g".into()),
        title: "T".into(),
        artist: "A".into(),
        date: None,
    };
    assert_eq!(
        front_cover(&r, CoverSize::S500),
        [
            "https://coverartarchive.org/release/m/front-500",
            "https://coverartarchive.org/release-group/g/front-500",
        ]
    );
    assert!(matches!(cover_reply(Ok(vec![1]), 0, 2), CoverStep::Found(v) if v == [1]));
    assert!(matches!(cover_reply(Ok(vec![]), 0, 2), CoverStep::Failed(OnlineError::Parse(_))));
    let gone = OnlineError::Http { status: 404, body: String::new() };
    assert!(matches!(cover_reply(Err(gone.clone()), 0, 2), CoverStep::Next));
    // Where the last place holds none either, there is none.
    assert!(matches!(cover_reply(Err(gone.clone()), 1, 2), CoverStep::Missing));
    assert!(matches!(cover_reply(Err(gone), 0, 1), CoverStep::Missing));
    assert!(matches!(
        cover_reply(Err(OnlineError::Network("x".into())), 1, 2),
        CoverStep::Failed(OnlineError::Network(_))
    ));
}

#[test]
fn rate_limiter_first_call_is_immediate() {
    let limiter = RateLimiter::new(10_000_000_000);
    assert_eq!(limiter.wait(5), 0);
}

#[test]
fn rate_limiter_spaces_requests() {
    let interval = 40;
    let mut limiter = RateLimiter::new(interval);
    let mut now = 1000;
    let start = now;
    for _ in 0..4 {
        now += limiter.wait(now);
        limiter.issue(now);
    }
    // The first slot is free, the three others each wait one interval.
    assert_eq!(now - start, interval * 3);
    let mut mb = musicbrainz_limiter();
    mb.issue(0);
    assert_eq!(mb.wait(400_000_000), 600_000_000);
}

fn raw(uuid: &str) -> RawStation {
    RawStation {
        stationuuid: uuid.into(),
        name: None,
        url_resolved: None,
        url: None,
        homepage: None,
        favicon: None,
        tags: None,
        country: None,
        countrycode: None,
        language: None,
        codec: None,
        bitrate: None,
        votes: None,
        clickcount: None,
        hls: None,
    }
}

fn stations() -> Vec<Station> {
    let fip = RawStation {
        name: Some(" FIP ".into()),
        url_resolved: Some("https://icecast.radiofrance.fr/fip-hifi.aac".into()),
        tags: Some(TagsField::Csv("eclectic,jazz, public radio,".into())),
        countrycode: Some("FR".into()),
        codec: Some("AAC".into()),
        bitrate: Some(192),
        votes: Some(12_000),
        clickcount: Some(950),
        hls: Some(FlagField::Int(0)),
        ..raw("d7e8f1a2-0000-4000-8000-000000000001")
    };
    let rtl = RawStation {
        tags: Some(TagsField::List(vec!["généraliste".into()])),
        hls: Some(FlagField::Int(1)),
        ..raw("2")
    };
    let sparse = RawStation {
        name: Some("Sparse".into()),
        url_resolved: Some(String::new()),
        url: Some("http://example.org/stream".into()),
        ..raw("3")
    };
    vec![fip, rtl, sparse].into_iter().map(Station::from_raw).collect()
}

#[test]
fn station_parsing() {
    let stations = stations();
    assert_eq!(stations.len(), 3);
    let fip = &stations[0];
    assert_eq!(fip.uuid, "d7e8f1a2-0000-4000-8000-000000000001");
    assert_eq!(fip.name, "FIP");
    assert_eq!(
        fip.url_resolved,
        "https://icecast.radiofrance.fr/fip-hifi.aac"
    );
    assert_eq!(fip.tags, ["eclectic", "jazz", "public radio"]);
    assert_eq!(fip.countrycode, "FR");
    assert_eq!(fip.codec, "AAC");
    assert_eq!(fip.bitrate, 192);
    assert_eq!(fip.votes, 12_000);
    assert_eq!(fip.clickcount, 950);
    assert!(!fip.hls);

    let rtl = &stations[1];
    assert!(rtl.hls);
    assert_eq!(rtl.tags, ["généraliste"]);

    // Nulls and a missing url_resolved fall back gracefully.
    let sparse = &stations[2];
    assert_eq!(sparse.url_resolved, "http://example.org/stream");
    assert!(sparse.tags.is_empty());
    assert_eq!(sparse.bitrate, 0);
    assert_eq!(sparse.name, "Sparse");
}

#[test]
fn hls_excluded_by_default() {
    let playable = filter_hls(stations(), false);
    assert_eq!(playable.len(), 2);
    assert!(playable.iter().all(|s| !s.hls));
    assert_eq!(playable[0].name, "FIP");
    assert_eq!(filter_hls(stations(), true).len(), 3);
}

#[test]
fn query_params() {
    let q = StationQuery {
        name: Some(" jazz ".into()),
        tag: Some(String::new()),
        countrycode: Some("FR".into()),
        order: Some(StationOrder::Votes),
        reverse: true,
        limit: 20,
        ..Default::default()
    };
    let params = q.params();
    let get = |k: &str| {
        params
            .iter()
            .find(|(n, _)| *n == k)
            .map(|(_, v)| v.as_str())
    };
    assert_eq!(get("name"), Some("jazz"));
    assert_eq!(get("tag"), None);
    assert_eq!(get("countrycode"), Some("FR"));
    assert_eq!(get("language"), None);
    assert_eq!(get("order"), Some("votes"));
    assert_eq!(get("reverse"), Some("true"));
    assert_eq!(get("limit"), Some("20"));
    assert_eq!(get("offset"), Some("0"));
    assert_eq!(get("hidebroken"), Some("true"));
}

#[test]
fn default_query_hides_broken_and_hls() {
    let q = StationQuery::default();
    assert!(q.hidebroken);
    assert!(!q.include_hls);
}

#[test]
fn server_picking() {
    let servers: Vec<String> = [
        "de1.api.radio-browser.info",
        "de1.api.radio-browser.info",
        "fi1.api.radio-browser.info",
        "",
    ]
    .map(String::from)
    .to_vec();
    assert_eq!(pick_server(&servers, 0).as_deref(), Some("de1.api.radio-browser.info"));
    assert_eq!(pick_server(&servers, 1).as_deref(), Some("fi1.api.radio-browser.info"));
    assert_eq!(pick_server(&servers, 2).as_deref(), Some("de1.api.radio-browser.info"));
    assert_eq!(pick_server(&[], 7), None);
    let b = RadioBrowser::discover(Err(OnlineError::Network("x".into())), 3);
    assert_eq!(b.host(), "de1.api.radio-browser.info");
    assert_eq!(RadioBrowser::discover(Ok(servers), 1).host(), "fi1.api.radio-browser.info");
}

#[test]
fn mirrors_are_asked() {
    let b = RadioBrowser::with_host("h");
    assert_eq!(b.top_clicked(5).url, "https://h/json/stations/topclick/5");
    assert_eq!(b.top_voted(5).query, p(&[("hidebroken", "true")]));
    assert_eq!(b.by_uuid("u").url, "https://h/json/stations/byuuid/u");
    assert_eq!(b.count_click("u").url, "https://h/json/url/u");
    assert_eq!(b.tags(9).query[3], ("limit".to_string(), "9".to_string()));
    assert_eq!(b.countries().url, "https://h/json/countries");
    assert_eq!(b.search(&StationQuery::default()).url, "https://h/json/stations/search");
}

#[test]
fn click_parsing() {
    let ok = ClickResponse {
        ok: true,
        message: "retrieved station url".into(),
        url: "https://s/fip".into(),
    };
    assert_eq!(parse_click(ok).unwrap(), "https://s/fip");
    let ko = ClickResponse {
        ok: false,
        message: "did not find station".into(),
        url: String::new(),
    };
    assert!(parse_click(ko).is_err());
}

#[test]
fn sending_stops_when_a_request_fails() {
    assert!(matches!(start_sending(0), SendStep::Done));
    assert!(matches!(start_sending(2), SendStep::Send(0)));
    assert!(matches!(sent(0, 2, Ok(())), SendStep::Send(1)));
    assert!(matches!(sent(1, 2, Ok(())), SendStep::Done));
    assert!(matches!(submit_sent(0, 2, Ok(String::new())), SendStep::Send(1)));
    let refused = OnlineError::Http { status: 401, body: "no".into() };
    assert!(matches!(
        submit_sent(0, 2, Err(refused)),
        SendStep::Failed(OnlineError::Auth(b)) if b == "no"
    ));
    let mut total = ScrobbleOutcome::default();
    let first = ScrobbleOutcome { accepted: 49, ignored: 1 };
    assert!(matches!(total.batch_sent(0, 3, Ok(first)), SendStep::Send(1)));
    let second = ScrobbleOutcome { accepted: 3, ignored: 2 };
    assert!(matches!(total.batch_sent(1, 3, Ok(second)), SendStep::Send(2)));
    assert_eq!(total, ScrobbleOutcome { accepted: 52, ignored: 3 });
    let down = Err(OnlineError::Network("down".into()));
    assert!(matches!(total.batch_sent(2, 3, down), SendStep::Failed(OnlineError::Network(_))));
    assert_eq!(total, ScrobbleOutcome { accepted: 52, ignored: 3 });
}
