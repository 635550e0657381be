use ricercar::audio::http::{
    live_chunk, plan_body, spool_dir, spool_name, spool_pid, BodyPlan, LiveReader, Progress,
    SeekTarget, SpoolReader, SpoolWait,
};
use ricercar::audio::icy::{parse_stream_title, IcyDemux};
use ricercar::audio::sink::{
    device_info, AlsaSink, NullSink, PcmAction, PcmState, WriteAction, WriteProgress,
};
use ricercar::audio::fmt::{Container, PcmFormat};

fn icy_block(meta: &str) -> Vec<u8> {
    let mut m = meta.as_bytes().to_vec();
    m.resize(m.len().div_ceil(16) * 16, 0);
    let mut out = vec![(m.len() / 16) as u8];
    out.extend(m);
    out
}

#[test]
fn icy_demux_strips_metadata_across_chunk_boundaries() {
    let metaint = 5;
    let mut wire = b"AAAAA".to_vec();
    wire.extend(icy_block("StreamTitle='It's - Me';StreamUrl='';"));
    wire.extend(b"BBBBB");
    wire.push(0); // empty metadata block
    wire.extend(b"CCCCC");
    wire.extend(icy_block("StreamTitle='Next';"));
    wire.extend(b"DD");
    for split in 1..wire.len() {
        let mut d = IcyDemux::new(metaint);
        let mut audio = Vec::new();
        let mut titles = Vec::new();
        for part in wire.chunks(split) {
            titles.extend(d.feed(part, &mut audio));
        }
        assert_eq!(audio, b"AAAAABBBBBCCCCCDD", "split {split}");
        assert_eq!(titles, ["It's - Me", "Next"], "split {split}");
    }
}

#[test]
fn stream_title_latin1_and_missing() {
    assert_eq!(
        parse_stream_title(b"StreamTitle='Caf\xe9';\0\0").as_deref(),
        Some("Café")
    );
    assert_eq!(parse_stream_title(b"StreamUrl='x';"), None);
    assert_eq!(
        parse_stream_title("StreamTitle='Café';".as_bytes()).as_deref(),
        Some("Café")
    );
}

#[test]
fn bodies_are_spooled_or_live() {
    assert!(matches!(
        plan_body(None, None, Some("1000")),
        BodyPlan::Spool { len: 1000 }
    ));
    assert!(matches!(
        plan_body(Some("16000"), None, None),
        BodyPlan::Live { metaint: Some(16000) }
    ));
    assert!(matches!(
        plan_body(None, Some("chunked"), Some("10")),
        BodyPlan::Live { metaint: None }
    ));
}

#[test]
fn spool_names_tell_the_process() {
    let name = spool_name(4242, 7);
    assert_eq!(spool_pid(&name), Some(4242));
    assert_eq!(spool_pid("other"), None);
    assert!(spool_dir(Some("/c"), None).unwrap().starts_with("/c"));
    assert!(spool_dir(None, None).is_none());
}

/// A download that arrives in pieces, read as it comes.
fn read_all(data: &[u8], r: &mut SpoolReader, step: u64) -> Vec<u8> {
    let mut p = Progress { downloaded: 0, done: false, error: None };
    let mut out = Vec::new();
    loop {
        match r.wait_for(&p) {
            SpoolWait::Ready(avail) => {
                let n = SpoolReader::span(100, avail);
                let from = r.pos as usize;
                out.extend(&data[from..from + n]);
                r.advance(n);
            }
            SpoolWait::End => return out,
            SpoolWait::Failed(e) => panic!("{e}"),
            SpoolWait::Wait => {
                p.downloaded = (p.downloaded + step).min(data.len() as u64);
                p.done = p.downloaded == data.len() as u64;
            }
        }
    }
}

#[test]
fn spool_blocks_until_bytes_arrive_and_seeks() {
    let data: Vec<u8> = (0..20_000u32).map(|i| (i % 251) as u8).collect();
    let mut r = SpoolReader::new(data.len() as u64);
    assert_eq!(r.seek(SeekTarget::End(-100)), Some(19_900));
    assert_eq!(read_all(&data, &mut r, 1000), &data[data.len() - 100..]);
    assert_eq!(r.seek(SeekTarget::Start(0)), Some(0));
    assert_eq!(read_all(&data, &mut r, 1000), data);
    assert_eq!(r.seek(SeekTarget::Current(-30_000)), None);
}

#[test]
fn truncated_download_is_an_error() {
    // Short body: reads past it end cleanly (the decoder decides whether the
    // data is usable).
    let data = vec![1u8; 10];
    let mut r = SpoolReader::new(20);
    assert_eq!(read_all(&data, &mut r, 10), data);
    let failed = Progress { downloaded: 10, done: true, error: Some("reset".to_string()) };
    assert!(matches!(r.wait_for(&failed), SpoolWait::Failed(_)));
}

#[test]
fn live_streams_are_demultiplexed() {
    let mut wire = b"AAAAA".to_vec();
    wire.extend(icy_block("StreamTitle='Song';"));
    wire.extend(b"BB");
    let mut demux = Some(IcyDemux::new(5));
    let (audio, titles) = live_chunk(&mut demux, &wire);
    assert_eq!(audio, b"AAAAABB");
    assert_eq!(titles, ["Song"]);
    let (plain, none) = live_chunk(&mut None, b"xyz");
    assert_eq!(plain, b"xyz");
    assert!(none.is_empty());
    let mut r = LiveReader::new();
    assert!(r.is_drained());
    r.refill(b"hello".to_vec());
    assert_eq!(r.read(3), b"hel");
    assert!(!r.is_drained());
    assert_eq!(r.read(10), b"lo");
    assert!(r.is_drained());
}

#[test]
fn writes_go_on_after_short_ones() {
    let (p, a) = WriteProgress::start(16);
    assert_eq!(a, WriteAction::Write);
    let (p, a) = p.wrote(2, 4, 16);
    assert_eq!((p.off, a), (8, WriteAction::Write));
    let (p, a) = p.wrote(0, 4, 16);
    assert_eq!((p.off, a), (8, WriteAction::Wait));
    let (p, a) = p.failed(32);
    assert_eq!(a, WriteAction::Recover);
    let (p, a) = p.wrote(2, 4, 16);
    assert_eq!((p.off, a), (16, WriteAction::Done));
}

#[test]
fn pausing_depends_on_the_device() {
    let mut s = AlsaSink::new(device_info("hw:0,0"));
    assert_eq!(s.pause_action(PcmState::Running), PcmAction::Nothing);
    let fmt = PcmFormat { sample_rate: 44100, channels: 2, bits: 16 };
    assert!(s.encode(&[1, 2]).is_err());
    assert!(s
        .settled(fmt, Container::S16, (44100, 2, Some(Container::S16)), true)
        .is_ok());
    assert_eq!(s.pause_action(PcmState::Running), PcmAction::PauseOrDrop);
    assert_eq!(s.resume_action(PcmState::Paused), PcmAction::Unpause);
    assert_eq!(s.resume_action(PcmState::XRun), PcmAction::Prepare);
    assert_eq!(s.delay_frames(Some(-5)), 0);
    assert_eq!(s.delay_frames(Some(512)), 512);
    assert_eq!(s.encode(&[1, -1]).unwrap(), (vec![1, 0, 255, 255], 4));
    s.close();
    assert_eq!(s.resume_action(PcmState::Paused), PcmAction::Nothing);
}

#[test]
fn a_device_that_settles_on_another_rate_is_refused() {
    let mut s = AlsaSink::new(device_info("hw:0,0"));
    let fmt = PcmFormat { sample_rate: 96000, channels: 2, bits: 24 };
    assert!(s
        .settled(fmt, Container::S24, (48000, 2, Some(Container::S24)), true)
        .is_err());
    assert!(s
        .settled(fmt, Container::S24, (96000, 2, Some(Container::S16)), true)
        .is_err());
    assert_eq!(AlsaSink::period_frames(44100), 2205);
    assert_eq!(AlsaSink::period_frames(8000), 1024);
    assert_eq!(AlsaSink::period_frames(768_000), 16384);
}

#[test]
fn the_null_sink_counts() {
    let s = NullSink::new(device_info("null"));
    assert_eq!(s.frames_written(), 0);
}
