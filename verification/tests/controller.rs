use ricercar::audio::device::DeviceKind;
use ricercar::audio::gain::TrackOpts;
use ricercar::audio::player::TransportStatus;
use ricercar::config::ReplayGain;
use ricercar::controller::bridge::{PlayCounter, SaveClock};
use ricercar::controller::queue::opts_for;
use ricercar::controller::state::{
    Controller, CtlEffect, CtlEvent, EnqueueAt, Origin, PlayContext, Repeat, TrackInfo,
};
use ricercar::library::meta::TagInfo;

fn info(n: u32) -> TrackInfo {
    TrackInfo {
        uri: format!("file:///nonexistent/{n}.flac"),
        title: format!("t{n}"),
        track_no: Some(n),
        album_id: Some("a".into()),
        ..Default::default()
    }
}

fn ctl() -> Controller {
    Controller::new("null")
}

fn remote(uri: &str) -> TrackInfo {
    TrackInfo::from_uri(uri, TagInfo::default())
}

fn titles(c: &Controller) -> Vec<String> {
    c.state.queue.iter().map(|q| q.info.title.clone()).collect()
}

fn loads(effects: &[CtlEffect]) -> Vec<String> {
    effects
        .iter()
        .filter_map(|e| match e {
            CtlEffect::Load { uri, .. } => Some(uri.clone()),
            _ => None,
        })
        .collect()
}

fn armed(effects: &[CtlEffect]) -> Option<String> {
    effects.iter().rev().find_map(|e| match e {
        CtlEffect::EnqueueNext { uri, .. } => Some(uri.clone()),
        _ => None,
    })
}

#[test]
fn queue_mutations_keep_current() {
    let mut c = ctl();
    c.enqueue((1..=3).map(info).collect(), EnqueueAt::End);
    assert_eq!(c.state.current, Some(0));
    c.state.current = Some(1);
    c.enqueue(vec![info(9)], EnqueueAt::Next);
    assert_eq!(titles(&c), ["t1", "t2", "t9", "t3"]);
    c.move_item(3, 0);
    assert_eq!(titles(&c), ["t3", "t1", "t2", "t9"]);
    assert_eq!(c.state.current_item().unwrap().info.title, "t2");
    let id = c.state.queue[0].id;
    c.remove_ids(&[id]);
    assert_eq!(c.state.current, Some(1));
    c.clear_upcoming();
    assert_eq!(titles(&c), ["t1", "t2"]);
    c.clear_queue();
    assert!(c.state.queue.is_empty());
}

#[test]
fn shuffle_keeps_current_first_and_restores_order() {
    let mut c = ctl();
    c.enqueue((1..=30).map(info).collect(), EnqueueAt::End);
    c.state.context = PlayContext::Album("a".into());
    c.state.current = Some(4);
    c.set_shuffle(true, 0x1234_5678_9abc_def0);
    let t = titles(&c);
    assert_eq!(&t[..5], ["t1", "t2", "t3", "t4", "t5"]);
    assert_ne!(
        &t[5..],
        (6..=30).map(|n| format!("t{n}")).collect::<Vec<_>>()
    );
    c.set_shuffle(false, 1);
    assert_eq!(
        titles(&c),
        (1..=30).map(|n| format!("t{n}")).collect::<Vec<_>>()
    );
}

#[test]
fn next_prev_and_repeat() {
    let mut c = ctl();
    c.enqueue((1..=2).map(info).collect(), EnqueueAt::End);
    assert!(c.state.has_next() && !c.state.has_prev());
    c.state.current = Some(1);
    assert!(!c.state.has_next());
    c.set_repeat(Repeat::All);
    assert!(c.state.has_next());
    assert_eq!(Repeat::Off.cycle(), Repeat::All);
    assert_eq!(Repeat::All.cycle().cycle().cycle(), Repeat::All);
}

#[test]
fn remote_next_keeps_two_items() {
    let mut c = ctl();
    c.set_remote("http://x/a.flac", None, TagInfo::default());
    c.remote_next("http://x/b.flac", None, TagInfo::default());
    assert_eq!(titles(&c), ["a.flac", "b.flac"]);
    c.state.current = Some(1);
    c.remote_next("http://x/c%20d.flac", None, TagInfo::default());
    assert_eq!(titles(&c), ["b.flac", "c d.flac"]);
    assert_eq!(c.state.origin, Origin::Remote);
    c.remote_next("", Some(remote("http://x/e.flac")), TagInfo::default());
    assert_eq!(titles(&c), ["b.flac"]);
    // The control point's URI counts, whatever it says of the track.
    let mut said = remote("http://x/other.flac");
    said.title = "Said".into();
    c.set_remote("http://x/f.flac", Some(said.clone()), TagInfo::default());
    assert_eq!((c.state.queue[0].info.uri.as_str(), titles(&c)), ("http://x/f.flac", vec!["Said".into()]));
    c.remote_next("http://x/g.flac", Some(said), TagInfo::default());
    assert_eq!(c.state.queue[1].info.uri, "http://x/g.flac");
}

#[test]
fn session_roundtrip() {
    let mut c = ctl();
    c.enqueue((1..=3).map(info).collect(), EnqueueAt::End);
    c.set_repeat(Repeat::One);
    c.state.current = Some(2);
    c.state.pos_ms = 42_000;
    let session = c.save_session().unwrap();
    let mut c2 = ctl();
    c2.restore_session(session);
    assert_eq!(c2.state.queue.len(), 3);
    assert_eq!(c2.state.current, Some(2));
    assert_eq!(c2.state.pos_ms, 42_000);
    assert_eq!(c2.state.repeat, Repeat::One);
    // A queue that a remote control point drives is not saved.
    c2.set_remote("http://x/a.flac", None, TagInfo::default());
    assert!(c2.save_session().is_none());
}

#[test]
fn playing_tracks_loads_and_arms() {
    let mut c = ctl();
    let e = c.play_tracks((1..=3).map(info).collect(), 1, PlayContext::Nowhere, 7);
    assert_eq!(loads(&e), ["file:///nonexistent/2.flac"]);
    assert_eq!(c.state.current, Some(1));
    c.on_status(TransportStatus::Playing);
    let e = c.on_track_started("file:///nonexistent/2.flac", None);
    assert_eq!(armed(&e).as_deref(), Some("file:///nonexistent/3.flac"));
    // The engine moves on by itself.
    let e = c.on_track_started("file:///nonexistent/3.flac", None);
    assert_eq!(c.state.current, Some(2));
    assert_eq!(armed(&e), None);
    assert!(e
        .iter()
        .any(|e| matches!(e, CtlEffect::Publish(CtlEvent::TrackChanged))));
}

#[test]
fn repeat_one_arms_the_same_track() {
    let mut c = ctl();
    c.play_tracks((1..=2).map(info).collect(), 0, PlayContext::Nowhere, 7);
    c.set_repeat(Repeat::One);
    c.on_status(TransportStatus::Playing);
    let e = c.on_track_started("file:///nonexistent/1.flac", None);
    assert_eq!(armed(&e).as_deref(), Some("file:///nonexistent/1.flac"));
}

#[test]
fn broken_tracks_are_skipped() {
    let mut c = ctl();
    c.play_tracks((1..=3).map(info).collect(), 0, PlayContext::Nowhere, 7);
    let e = c.on_error("no such file".into());
    assert_eq!(loads(&e), ["file:///nonexistent/2.flac"]);
    assert!(e
        .iter()
        .any(|e| matches!(e, CtlEffect::Publish(CtlEvent::Error(m)) if m == "no such file")));
}

#[test]
fn shuffled_play_keeps_every_track() {
    let mut c = ctl();
    c.play_shuffled((1..=20).map(info).collect(), PlayContext::Mix, 99);
    let mut t = titles(&c);
    assert_ne!(t, (1..=20).map(|n| format!("t{n}")).collect::<Vec<_>>());
    t.sort();
    let mut want: Vec<String> = (1..=20).map(|n| format!("t{n}")).collect();
    want.sort();
    assert_eq!(t, want);
}

#[test]
fn plays_count_once_and_seeks_do_not() {
    let mut c = ctl();
    let mut track = info(1);
    track.duration_ms = 100_000;
    c.play_tracks(vec![track], 0, PlayContext::Nowhere, 1);
    c.on_track_started("file:///nonexistent/1.flac", None);
    let mut counter = PlayCounter::new();
    counter.started();
    let mut plays = 0;
    let mut feed = |c: &mut Controller, counter: &mut PlayCounter, pos: u64| {
        let e = counter.on_position(c, pos, Some(100_000));
        plays += e
            .iter()
            .filter(|e| matches!(e, CtlEffect::Publish(CtlEvent::Played(_))))
            .count();
    };
    // A jump to the end is not listening.
    feed(&mut c, &mut counter, 1_000);
    feed(&mut c, &mut counter, 90_000);
    for s in 0..100u64 {
        feed(&mut c, &mut counter, s * 1_000);
    }
    assert_eq!(plays, 1);
}

#[test]
fn seeking_and_volume() {
    let mut c = ctl();
    let mut track = info(1);
    track.duration_ms = 100_000;
    c.play_tracks(vec![track], 0, PlayContext::Nowhere, 1);
    c.on_status(TransportStatus::Playing);
    c.state.dur_ms = 100_000;
    c.state.pos_ms = 10_000;
    let e = c.seek_relative(-20_000);
    assert!(e.iter().any(|e| matches!(e, CtlEffect::Seek { ms: 0 })));
    c.state.pos_ms = 10_000;
    let e = c.seek_relative(200_000);
    assert!(e.iter().any(|e| matches!(e, CtlEffect::Seek { ms: 99_500 })));
    c.set_volume(150);
    assert_eq!(c.state.volume, 100);
    c.set_muted(true);
    assert!(c.state.muted);
}

#[test]
fn replaygain_follows_the_context() {
    let mut t = info(1);
    t.rg_track_gain = Some((-6.0f32).to_bits());
    t.rg_track_peak = Some(0.5f32.to_bits());
    t.rg_album_gain = Some((-3.0f32).to_bits());
    t.rg_album_peak = Some(0.75f32.to_bits());
    let track = TrackOpts { gain_db: t.rg_track_gain, peak: t.rg_track_peak };
    let album = TrackOpts { gain_db: t.rg_album_gain, peak: t.rg_album_peak };
    let ctx = PlayContext::Album("a".into());
    assert_eq!(opts_for(&ctx, false, ReplayGain::Off, &t), TrackOpts::default());
    assert_eq!(opts_for(&ctx, false, ReplayGain::Track, &t), track);
    assert_eq!(opts_for(&ctx, false, ReplayGain::Album, &t), album);
    assert_eq!(opts_for(&ctx, false, ReplayGain::Auto, &t), album);
    assert_eq!(opts_for(&PlayContext::Mix, false, ReplayGain::Auto, &t), track);
}

#[test]
fn a_shuffled_album_gets_track_gain() {
    let mut t = info(1);
    t.rg_track_gain = Some((-3.0f32).to_bits());
    t.rg_track_peak = Some(0.5f32.to_bits());
    t.rg_album_gain = Some((-5.0f32).to_bits());
    t.rg_album_peak = Some(0.75f32.to_bits());
    let track = TrackOpts { gain_db: t.rg_track_gain, peak: t.rg_track_peak };
    let album = TrackOpts { gain_db: t.rg_album_gain, peak: t.rg_album_peak };
    let ctx = PlayContext::Album("a".into());
    assert_eq!(opts_for(&ctx, true, ReplayGain::Auto, &t), track);
    // Asked for, album gain is applied whatever the order.
    assert_eq!(opts_for(&ctx, true, ReplayGain::Album, &t), album);
    let mut c = ctl();
    c.set_replaygain(ReplayGain::Auto, 0);
    c.set_shuffle(true, 1);
    let e = c.play_tracks(vec![t], 0, ctx, 1);
    assert!(e.iter().any(|e| matches!(e, CtlEffect::Load { opts, .. } if *opts == track)));
}

#[test]
fn a_mixing_device_is_not_bit_perfect() {
    let c = Controller::new("default");
    assert_eq!(c.state.chain.device, "default");
    assert_eq!(c.state.chain.device_kind, DeviceKind::Virtual);
    assert_eq!(c.state.chain.format, None);
    assert!(!c.state.chain.bit_perfect);
    let mut c = Controller::new("hw:0,0");
    assert!(c.state.chain.bit_perfect);
    c.set_device("plughw:0,0".into());
    assert!(!c.state.chain.bit_perfect);
}

#[test]
fn stream_titles_are_kept_and_told() {
    let mut c = ctl();
    c.play_tracks(vec![info(1)], 0, PlayContext::Radio, 1);
    let e = c.on_stream_title("Song".into());
    assert_eq!(c.state.stream_title.as_deref(), Some("Song"));
    assert!(e
        .iter()
        .any(|e| matches!(e, CtlEffect::Publish(CtlEvent::StreamTitle(t)) if t == "Song")));
}

#[test]
fn names_of_remote_tracks() {
    assert_eq!(remote("http://x/a%20b.flac?k=1").title, "a b.flac");
    let local = TrackInfo::from_uri(
        "file:///m/x.flac",
        TagInfo { title: Some("T".into()), artist: Some("A".into()), ..Default::default() },
    );
    assert_eq!(local.title, "T");
    assert_eq!(local.path.as_deref(), Some("/m/x.flac"));
}

fn seeks(effects: &[CtlEffect]) -> Vec<u64> {
    effects
        .iter()
        .filter_map(|e| match e {
            CtlEffect::Seek { ms } => Some(*ms),
            _ => None,
        })
        .collect()
}

#[test]
fn switching_the_device_keeps_the_place() {
    let mut c = ctl();
    c.play_tracks(vec![info(1), info(2)], 1, PlayContext::Nowhere, 1);
    c.on_track_started(&info(2).uri, None);
    c.on_status(TransportStatus::Playing);
    c.state.pos_ms = 42_000;
    let effects = c.set_device("hw:1,0".to_string());
    assert_eq!(loads(&effects), [info(2).uri]);
    let spawned = effects
        .iter()
        .any(|e| matches!(e, CtlEffect::Respawn { device } if device == "hw:1,0"));
    assert!(spawned);
    assert_eq!(seeks(&c.on_track_started(&info(2).uri, None)), [42_000]);
    assert_eq!(c.state.current, Some(1));
    assert!(c.set_device("hw:1,0".to_string()).is_empty());
}

#[test]
fn a_restored_session_goes_on_where_it_ended() {
    let mut c = ctl();
    c.play_tracks(vec![info(1), info(2)], 1, PlayContext::Nowhere, 1);
    c.state.pos_ms = 5_000;
    let saved = c.save_session().unwrap();
    let mut fresh = ctl();
    fresh.restore_session(saved);
    assert_eq!(loads(&fresh.play()), [info(2).uri]);
    assert_eq!(seeks(&fresh.on_track_started(&info(2).uri, None)), [5_000]);
    assert_eq!(seeks(&fresh.on_track_started(&info(2).uri, None)), Vec::<u64>::new());
}

#[test]
fn the_armed_item_becomes_current() {
    // The same track twice: only the identity of the item tells them apart.
    let mut c = ctl();
    c.play_tracks(vec![info(1), info(1), info(2)], 0, PlayContext::Nowhere, 1);
    c.on_track_started(&info(1).uri, None);
    assert_eq!(c.state.current, Some(0));
    assert_eq!(armed(&c.on_status(TransportStatus::Playing)), Some(info(1).uri));
    c.on_track_started(&info(1).uri, None);
    assert_eq!(c.state.current, Some(1));
}

#[test]
fn skipping_stops_after_a_while() {
    let mut c = ctl();
    c.play_tracks((1..=9).map(info).collect(), 0, PlayContext::Nowhere, 1);
    let mut skipped = 0;
    while !loads(&c.on_error("no such file".to_string())).is_empty() {
        skipped += 1;
    }
    assert_eq!(skipped, 5);
    assert_eq!(c.state.current, Some(5));
}

#[test]
fn the_session_is_saved_when_it_changed() {
    let mut s = SaveClock::new(1_000);
    assert!(!s.save_due(7, 10_999));
    assert_eq!(s, SaveClock { last_ms: 1_000, saved: u64::MAX });
    assert!(s.save_due(7, 11_000));
    assert_eq!(s, SaveClock { last_ms: 11_000, saved: 7 });
    // The same mark is looked at, not saved again.
    assert!(!s.save_due(7, 21_000));
    assert!(!s.save_due(8, 30_999));
    assert!(s.save_due(8, 31_000));
}

#[test]
fn a_device_switch_keeps_the_gain() {
    let mut t = info(1);
    t.rg_track_gain = Some((-6.0f32).to_bits());
    t.rg_track_peak = Some(0.5f32.to_bits());
    let gain = TrackOpts { gain_db: t.rg_track_gain, peak: t.rg_track_peak };
    let mut c = ctl();
    c.set_replaygain(ReplayGain::Track, 2.0f32.to_bits());
    c.play_tracks(vec![t], 0, PlayContext::Nowhere, 1);
    c.state.status = TransportStatus::Playing;
    let e = c.set_device("hw:1,0".to_string());
    let db = 2.0f32.to_bits();
    assert!(e.iter().any(|e| matches!(e, CtlEffect::SetGain { db: d } if *d == db)));
    assert!(e.iter().any(|e| matches!(e, CtlEffect::Load { opts, .. } if *opts == gain)));
}
