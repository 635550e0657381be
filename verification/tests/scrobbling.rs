use ricercar::config::ScrobbleConfig;
use ricercar::controller::state::TrackInfo;
use ricercar::daemon::scrobbler::{
    next_batch, queue_paths, services, submitted, to_track, ScrobbleAction, ScrobbleEvent,
    Scrobbler, RETRY_MS,
};
use ricercar::online::error::OnlineError;
use ricercar::online::scrobble::{
    threshold_ms, Scrobble, ScrobbleQueue, ScrobbleTrack, ScrobbleTracker,
};

fn track(duration_ms: u64) -> ScrobbleTrack {
    ScrobbleTrack {
        artist: "Artist".into(),
        title: "Title".into(),
        album: Some("Album".into()),
        album_artist: None,
        duration_ms,
        track_number: Some(1),
        mbid: None,
    }
}

#[test]
fn thresholds() {
    assert_eq!(threshold_ms(0), Some(240_000));
    assert_eq!(threshold_ms(29_000), None);
    assert_eq!(threshold_ms(30_000), None);
    assert_eq!(threshold_ms(30_001), Some(15_000));
    assert_eq!(threshold_ms(200_000), Some(100_000));
    assert_eq!(threshold_ms(480_000), Some(240_000));
    assert_eq!(threshold_ms(3_600_000), Some(240_000));
}

#[test]
fn scrobbles_at_half_duration() {
    let mut t = ScrobbleTracker::new();
    t.on_track_started(track(200_000), 1_000);
    assert_eq!(t.on_progress(99_999), None);
    let s = t.on_progress(1).expect("qualifies at exactly 50%");
    assert_eq!(s.started_at_unix, 1_000);
    assert_eq!(s.track, track(200_000));
    assert!(t.is_scrobbled());
}

#[test]
fn long_track_qualifies_after_four_minutes() {
    let mut t = ScrobbleTracker::new();
    t.on_track_started(track(20 * 60_000), 0);
    assert_eq!(t.on_progress(239_000), None);
    assert!(t.on_progress(1_000).is_some());
}

#[test]
fn emitted_exactly_once_per_play() {
    let mut t = ScrobbleTracker::new();
    t.on_track_started(track(60_000), 0);
    let hits = (0..60).filter_map(|_| t.on_progress(1_000)).count();
    assert_eq!(hits, 1);
    assert_eq!(t.listened_ms(), 60_000);
}

#[test]
fn short_tracks_never_scrobble() {
    let mut t = ScrobbleTracker::new();
    t.on_track_started(track(30_000), 0);
    assert_eq!(t.on_progress(30_000), None);
    assert_eq!(t.on_progress(1_000_000), None);
}

#[test]
fn unknown_duration_needs_four_minutes() {
    let mut t = ScrobbleTracker::new();
    t.on_track_started(track(0), 0);
    assert_eq!(t.on_progress(239_999), None);
    assert!(t.on_progress(1).is_some());
}

#[test]
fn pause_does_not_count() {
    // Caller stops feeding progress while paused: wall-clock time spent
    // paused is irrelevant, only the fed deltas matter.
    let mut t = ScrobbleTracker::new();
    t.on_track_started(track(100_000), 0);
    assert_eq!(t.on_progress(30_000), None);
    // ...paused for an hour, nothing fed...
    assert_eq!(t.on_progress(19_000), None);
    assert!(t.on_progress(1_000).is_some());
}

#[test]
fn seeking_forward_does_not_qualify() {
    // Seek to 90% then listen 10 s: only 10 s actually heard.
    let mut t = ScrobbleTracker::new();
    t.on_track_started(track(300_000), 0);
    assert_eq!(t.on_progress(10_000), None);
    t.on_track_ended();
    assert!(!t.is_scrobbled());
}

#[test]
fn seeking_backward_still_counts_listened_time() {
    let mut t = ScrobbleTracker::new();
    t.on_track_started(track(100_000), 0);
    assert_eq!(t.on_progress(30_000), None);
    // Seek back to 0 and listen another 20 s: 50 s heard in total.
    assert!(t.on_progress(20_000).is_some());
}

#[test]
fn repeat_of_same_track_scrobbles_again() {
    let mut t = ScrobbleTracker::new();
    t.on_track_started(track(60_000), 100);
    assert!(t.on_progress(60_000).is_some());
    t.on_track_ended();
    t.on_track_started(track(60_000), 160);
    let second = t.on_progress(60_000).expect("new play");
    assert_eq!(second.started_at_unix, 160);
}

#[test]
fn skipping_resets_progress() {
    let mut t = ScrobbleTracker::new();
    t.on_track_started(track(100_000), 0);
    assert_eq!(t.on_progress(40_000), None);
    // Skip to the next track without an explicit end.
    t.on_track_started(track(100_000), 40);
    assert_eq!(t.listened_ms(), 0);
    assert_eq!(t.on_progress(40_000), None);
    assert!(t.on_progress(10_000).is_some());
}

#[test]
fn progress_after_end_or_before_start_is_ignored() {
    let mut t = ScrobbleTracker::new();
    assert_eq!(t.on_progress(1_000_000), None);
    t.on_track_started(track(60_000), 0);
    t.on_track_ended();
    assert_eq!(t.on_progress(1_000_000), None);
    assert!(t.current_track().is_none());
}

#[test]
fn saturating_progress() {
    let mut t = ScrobbleTracker::new();
    t.on_track_started(track(60_000), 0);
    assert!(t.on_progress(u64::MAX).is_some());
    assert_eq!(t.on_progress(u64::MAX), None);
    assert_eq!(t.listened_ms(), u64::MAX);
}

fn scrobble(n: i64) -> Scrobble {
    Scrobble {
        track: track(100_000),
        started_at_unix: n,
    }
}

fn starts(q: &ScrobbleQueue) -> Vec<i64> {
    (0..q.len()).map(|i| q.get(i).unwrap().started_at_unix).collect()
}

#[test]
fn queue_persists_and_drains_in_order() {
    let mut q = ScrobbleQueue::open("sub/queue.json".into(), Vec::new());
    assert!(q.is_empty());
    assert_eq!(q.path(), "sub/queue.json");
    for i in 0..5 {
        q.push(scrobble(i));
    }
    let stored: Vec<Scrobble> = (0..q.len()).map(|i| q.get(i).unwrap().clone()).collect();
    let mut q = ScrobbleQueue::open("sub/queue.json".into(), stored);
    assert_eq!(q.len(), 5);
    let batch = q.drain_batch(3);
    assert_eq!(
        batch.iter().map(|s| s.started_at_unix).collect::<Vec<_>>(),
        [0, 1, 2]
    );
    assert_eq!(q.len(), 2);
    q.requeue(batch);
    assert_eq!(starts(&q), [0, 1, 2, 3, 4]);
}

#[test]
fn drain_more_than_available_and_empty() {
    let mut q = ScrobbleQueue::open("q.json".into(), Vec::new());
    assert!(q.drain_batch(10).is_empty());
    q.push(scrobble(1));
    assert_eq!(q.drain_batch(10).len(), 1);
    assert!(q.is_empty());
    q.requeue(Vec::new());
    assert!(q.is_empty());
    assert!(q.get(0).is_none());
}

#[test]
fn changes_of_the_queue_are_written() {
    let mut q = ScrobbleQueue::open("q.json".into(), (0..3).map(scrobble).collect());
    // What was read needs no writing, and neither does what changes nothing.
    assert!(!q.is_unsaved());
    assert!(q.drain_batch(0).is_empty());
    q.requeue(Vec::new());
    assert!(!q.is_unsaved());
    q.push(scrobble(3));
    assert!(q.is_unsaved());
    q.saved(false);
    assert!(q.is_unsaved());
    q.saved(true);
    assert!(!q.is_unsaved());
    let again = ScrobbleQueue::open("q.json".into(), q.contents());
    assert_eq!(starts(&again), [0, 1, 2, 3]);
    let batch = q.drain_batch(2);
    assert!(q.is_unsaved());
    q.saved(true);
    assert_eq!(starts(&ScrobbleQueue::open("q.json".into(), q.contents())), [2, 3]);
    q.requeue(batch);
    assert!(q.is_unsaved());
    assert_eq!(starts(&ScrobbleQueue::open("q.json".into(), q.contents())), [0, 1, 2, 3]);
}

#[test]
fn corrupt_queue_is_moved_aside() {
    assert_eq!(ScrobbleQueue::aside("/d/q.json"), "/d/q.json.corrupt");
}

#[test]
fn an_outage_keeps_the_queue() {
    let mut q = ScrobbleQueue::open("q".into(), (0..5).map(scrobble).collect());
    let batch = next_batch(&mut q, 2).unwrap();
    assert_eq!(batch.len(), 2);
    q.push(scrobble(9));
    let down = Err(OnlineError::Network("down".into()));
    assert!(!submitted(&mut q, batch, &down));
    assert_eq!(starts(&q), [0, 1, 2, 3, 4, 9]);
    // What is refused for good is dropped; what is accepted leaves.
    let batch = next_batch(&mut q, 2).unwrap();
    assert!(!submitted(&mut q, batch, &Err(OnlineError::Auth("no".into()))));
    assert_eq!(starts(&q), [2, 3, 4, 9]);
    let batch = next_batch(&mut q, 100).unwrap();
    assert!(submitted(&mut q, batch, &Ok(())));
    assert!(next_batch(&mut q, 100).is_none());
}

fn info(uri: &str) -> TrackInfo {
    TrackInfo {
        uri: uri.into(),
        title: "T".into(),
        artist: Some("A".into()),
        duration_ms: 100_000,
        ..Default::default()
    }
}

#[test]
fn listens_start_when_their_track_did() {
    let mut s = Scrobbler::new(0);
    let a = s.on_event(ScrobbleEvent::TrackChanged(Some(info("u"))), true, false, 50, 0);
    assert!(matches!(a, ScrobbleAction::NowPlaying(t) if t.title == "T"));
    // The same track again is no news.
    let a = s.on_event(ScrobbleEvent::TrackChanged(Some(info("u"))), true, false, 60, 0);
    assert!(matches!(a, ScrobbleAction::Nothing));
    let a = s.on_event(ScrobbleEvent::Played(info("u")), true, false, 100, 0);
    assert!(matches!(a, ScrobbleAction::Queue(l) if l.started_at_unix == 50));
    // A track whose start was not seen started half its length ago.
    let a = s.on_event(ScrobbleEvent::Played(info("v")), true, false, 100, 0);
    assert!(matches!(a, ScrobbleAction::Queue(l) if l.started_at_unix == 50));
    let a = s.on_event(ScrobbleEvent::Played(info("v")), false, false, 100, 0);
    assert!(matches!(a, ScrobbleAction::Nothing));
}

#[test]
fn queues_are_tried_again() {
    let mut s = Scrobbler::new(1000);
    let quiet = |s: &mut Scrobbler, waiting, clock| {
        matches!(s.on_event(ScrobbleEvent::Other, true, waiting, 0, clock), ScrobbleAction::Flush)
    };
    assert!(!quiet(&mut s, true, 1000 + RETRY_MS));
    assert!(quiet(&mut s, true, 1001 + RETRY_MS));
    assert!(!quiet(&mut s, false, 1001 + RETRY_MS));
    s.flushed(1001 + RETRY_MS);
    assert!(!quiet(&mut s, true, 1002 + RETRY_MS));
}

#[test]
fn some_tracks_are_not_sent() {
    assert!(to_track(&TrackInfo { live: true, ..info("u") }).is_none());
    assert!(to_track(&TrackInfo { artist: Some(String::new()), ..info("u") }).is_none());
    assert!(to_track(&TrackInfo { title: String::new(), ..info("u") }).is_none());
    assert_eq!(to_track(&info("u")).unwrap().duration_ms, 100_000);
}

#[test]
fn services_need_credentials() {
    let mut c = ScrobbleConfig::default();
    let s = services(&c);
    assert!(s.lb.is_none() && s.lastfm.is_none());
    c.listenbrainz_token = "t".into();
    c.lastfm_session = "s".into();
    assert!(services(&c).lastfm.is_none());
    c.lastfm_api_key = "k".into();
    let s = services(&c);
    assert!(s.lb.is_some());
    assert_eq!(s.lastfm.unwrap().1, "s");
    assert_eq!(queue_paths("/d").1, "/d/scrobbles-lastfm.json");
}

#[test]
fn listening_stops_counting_at_the_largest_number() {
    let mut t = ScrobbleTracker::new();
    t.on_track_started(track(0), 0);
    assert!(t.on_progress(u64::MAX).is_some());
    assert!(t.on_progress(u64::MAX).is_none());
    assert_eq!(t.listened_ms(), u64::MAX);
}
