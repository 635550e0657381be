//! The engine on a file sink, with PCM held in memory in place of files.

use std::collections::HashMap;

use ricercar::audio::engine::Turn;
use ricercar::audio::error::AudioError;
use ricercar::audio::fmt::{append_container, Container, PcmFormat};
use ricercar::audio::gain::{GainStage, TrackOpts};
use ricercar::audio::player::{
    Effect, EndReason, Engine, EngineCommand, EngineEvent, Opened, Phase, Pumped, Track,
    TransportStatus,
};
use ricercar::audio::sink::{device_info, FileSink};
use ricercar::audio::stream::{Packet, PumpStep, SampleType, TrackSource};

#[derive(Clone)]
struct Pcm {
    rate: u32,
    bits: u8,
    frames: Vec<[i32; 2]>,
}

struct Source {
    track: TrackSource,
    pcm: Pcm,
    at: usize,
}

struct Player {
    engine: Engine<Source>,
    sink: FileSink,
    files: HashMap<String, Pcm>,
    out: Vec<u8>,
    events: Vec<EngineEvent>,
    broken: bool,
}

impl Source {
    fn open(uri: &str, pcm: Pcm) -> Source {
        let ms = pcm.frames.len() as u64 * 1000 / pcm.rate as u64;
        Source {
            track: TrackSource::open(uri, Some(ms), true),
            pcm,
            at: 0,
        }
    }

    /// Decodes until there are samples, a thousand frames at a time.
    fn pump(&mut self) {
        while self.track.needs_packet() {
            let packet = if self.at == self.pcm.frames.len() {
                Packet::End
            } else {
                let to = (self.at + 1000).min(self.pcm.frames.len());
                let shift = 32 - self.pcm.bits;
                let samples = self.pcm.frames[self.at..to]
                    .iter()
                    .flatten()
                    .map(|s| s << shift)
                    .collect();
                self.at = to;
                Packet::Decoded {
                    rate: self.pcm.rate,
                    channels: 2,
                    sample_type: SampleType::S32,
                    declared_bits: Some(self.pcm.bits as u32),
                    samples,
                }
            };
            match self.track.pump(packet) {
                PumpStep::Samples | PumpStep::Ended => break,
                PumpStep::Again | PumpStep::ResetThenAgain => {}
                PumpStep::Failed(e) => panic!("{e:?}"),
            }
        }
    }
}

impl Player {
    fn new(formats: Option<&str>) -> Player {
        let name = match formats {
            Some(f) => format!("file:/nowhere/out.raw?formats={f}"),
            None => "file:/nowhere/out.raw".to_string(),
        };
        Player {
            engine: Engine::new(device_info(&name)),
            sink: FileSink::new(device_info(&name)),
            files: HashMap::new(),
            out: Vec::new(),
            events: Vec::new(),
            broken: false,
        }
    }

    fn file(&mut self, uri: &str, pcm: &Pcm) {
        self.files.insert(uri.to_string(), pcm.clone());
    }

    fn carry_out(&mut self, effects: Vec<Effect>) {
        for e in effects {
            match e {
                Effect::Publish(ev) => self.events.push(ev),
                Effect::CloseSink => self.sink.close(),
                Effect::RefreshChain => {
                    let unity = self.engine.gain == GainStage::default();
                    self.engine.refresh_chain(unity);
                }
                Effect::DiscardSink | Effect::DrainSink => {}
            }
        }
    }

    /// Answers whatever the engine waits for, until it waits for a command.
    fn settle(&mut self) {
        loop {
            let effects = match &self.engine.phase {
                Phase::Ready => return,
                Phase::OpenTrack { uri, .. } => {
                    let uri = uri.clone();
                    let answer = match self.files.get(&uri) {
                        Some(pcm) => {
                            let mut source = Source::open(&uri, pcm.clone());
                            source.pump();
                            Opened::Ready(Track {
                                uri,
                                duration_ms: source.track.duration_ms,
                                format: source.track.format,
                                seekable: true,
                                source,
                            })
                        }
                        None => Opened::Failed(AudioError::Decode("no such file".to_string())),
                    };
                    self.engine.on_opened(answer)
                }
                Phase::OpenSink { fmt, .. } | Phase::ReopenSink { fmt, .. } => {
                    let fmt = *fmt;
                    let answer = match self.sink.open(fmt) {
                        Ok(()) => Ok(self.sink.container.unwrap()),
                        Err(e) => Err(e),
                    };
                    self.engine.on_sink_opened(answer)
                }
                Phase::Pausing => self.engine.on_sink_paused(Ok(())),
                Phase::Resuming => self.engine.on_sink_resumed(Ok(()), 0),
                Phase::Seeking { ms } => {
                    let ms = *ms;
                    let source = &mut self.engine.current.as_mut().unwrap().source;
                    let frame = (ms * source.pcm.rate as u64 / 1000) as usize;
                    let frame = frame.min(source.pcm.frames.len());
                    source.at = frame;
                    source.track.seeked();
                    self.engine.on_seeked(Some(frame as u64))
                }
                Phase::SeekDiscard => self.engine.on_sink_discarded(Ok(()), 0),
                Phase::Pumping => {
                    let source = &mut self.engine.current.as_mut().unwrap().source;
                    source.pump();
                    let answer = Pumped {
                        format: source.track.format,
                        samples: source.track.pending.len() as u64,
                        end_of_stream: source.track.end_of_stream,
                    };
                    self.engine.on_pumped(Ok(answer))
                }
                Phase::Writing { .. } => {
                    let samples = self
                        .engine
                        .current
                        .as_mut()
                        .unwrap()
                        .source
                        .track
                        .take_pending();
                    let answer = if self.broken {
                        Err(AudioError::Decode("unplugged".to_string()))
                    } else {
                        self.sink.write_i32(&samples).map(|b| self.out.extend(b))
                    };
                    self.engine.on_written(answer)
                }
            };
            self.carry_out(effects);
        }
    }

    fn command(&mut self, cmd: EngineCommand) {
        let effects = self.engine.handle(cmd, 0);
        self.carry_out(effects);
        self.settle();
    }

    fn load(&mut self, uri: &str) {
        self.command(EngineCommand::Load {
            uri: uri.to_string(),
            opts: TrackOpts::default(),
        });
    }

    fn enqueue(&mut self, uri: &str) {
        self.command(EngineCommand::EnqueueNext {
            uri: uri.to_string(),
            opts: TrackOpts::default(),
        });
    }

    fn turn(&mut self) {
        let effects = self.engine.pump(None);
        self.carry_out(effects);
        self.settle();
    }

    /// Plays until nothing is left.
    fn play_out(&mut self) {
        let mut turns = 0;
        while self.engine.status == TransportStatus::Playing {
            assert!(matches!(self.engine.turn(), Turn::ApplyThenPump));
            self.turn();
            turns += 1;
            assert!(turns < 10_000, "never ends");
        }
    }

    fn reasons(&self) -> Vec<EndReason> {
        self.events
            .iter()
            .filter_map(|e| match e {
                EngineEvent::TrackEnded { reason, .. } => Some(*reason),
                _ => None,
            })
            .collect()
    }
}

fn tone(rate: u32, bits: u8, n: usize, phase: i32) -> Pcm {
    let max = (1i64 << (bits - 1)) - 1;
    let frames = (0..n)
        .map(|i| {
            let v = (i as i64 * 7919 + phase as i64) % (2 * max) - max;
            [v as i32, -(v as i32)]
        })
        .collect();
    Pcm { rate, bits, frames }
}

fn content(p: &Pcm) -> Vec<i32> {
    p.frames.iter().flatten().copied().collect()
}

/// Independent reference encoder for ALSA container layouts.
fn encode(content: &[i32], bits: u8, c: Container) -> Vec<u8> {
    let mut out = Vec::new();
    for &v in content {
        match c {
            Container::S16 => out.extend(((v << (16 - bits)) as i16).to_le_bytes()),
            // LSB-aligned in a 32-bit word, sign-extended.
            Container::S24 => out.extend((v << (24 - bits)).to_le_bytes()),
            Container::S24_3 => out.extend(&(v << (24 - bits)).to_le_bytes()[..3]),
            // MSB-aligned.
            Container::S32 => out.extend((v << (32 - bits)).to_le_bytes()),
        }
    }
    out
}

fn play(formats: Option<&str>, tracks: &[Pcm]) -> Player {
    let mut p = Player::new(formats);
    for (i, t) in tracks.iter().enumerate() {
        p.file(&format!("file:///{i}"), t);
    }
    p.load("file:///0");
    for i in 1..tracks.len() {
        p.enqueue(&format!("file:///{i}"));
        // A single successor is known at a time.
        assert_eq!(
            p.engine.shared.next_uri.as_deref(),
            Some(format!("file:///{i}").as_str())
        );
    }
    p.play_out();
    p
}

#[test]
fn bitexact_16_441() {
    let t = tone(44100, 16, 30_000, 1);
    let p = play(None, &[t.clone()]);
    assert_eq!(p.out, encode(&content(&t), 16, Container::S16));
    assert!(p.engine.shared.chain.bit_perfect, "file sink must report bit-perfect");
}

#[test]
fn bitexact_24_96_native_s24_le() {
    let t = tone(96000, 24, 30_000, 2);
    let p = play(None, &[t.clone()]);
    assert_eq!(p.out, encode(&content(&t), 24, Container::S24));
}

#[test]
fn bitexact_24_96_on_s32_only_device() {
    let t = tone(96000, 24, 5_000, 3);
    let p = play(Some("S32_LE,S16_LE"), &[t.clone()]);
    assert_eq!(p.out, encode(&content(&t), 24, Container::S32));
}

#[test]
fn bitexact_24_96_on_packed_only_device() {
    let t = tone(96000, 24, 5_000, 4);
    let p = play(Some("S24_3LE,S16_LE,S32_LE"), &[t.clone()]);
    assert_eq!(p.out, encode(&content(&t), 24, Container::S24_3));
}

#[test]
fn bitexact_16_padded_into_s32() {
    let t = tone(44100, 16, 5_000, 5);
    let p = play(Some("S32_LE"), &[t.clone()]);
    assert_eq!(p.out, encode(&content(&t), 16, Container::S32));
    assert!(p.engine.shared.chain.bit_perfect, "zero-padding is still bit-perfect");
}

#[test]
fn device_without_lossless_container_refuses() {
    let p = play(Some("S16_LE"), &[tone(96000, 24, 5_000, 6)]);
    let msg = p
        .events
        .iter()
        .find_map(|e| match e {
            EngineEvent::Error { message } => Some(message.clone()),
            _ => None,
        })
        .expect("24-bit on a 16-bit-only device must be refused");
    assert!(msg.contains("24-bit"), "{msg}");
    assert!(p.out.is_empty());
}

#[test]
fn gapless_same_rate() {
    let a = tone(44100, 24, 12_345, 7);
    let b = tone(44100, 24, 6_789, 8);
    let p = play(None, &[a.clone(), b.clone()]);
    let mut want = encode(&content(&a), 24, Container::S24);
    want.extend(encode(&content(&b), 24, Container::S24));
    assert_eq!(p.out, want);
    assert_eq!(p.reasons(), [EndReason::Finished, EndReason::Finished]);
}

#[test]
fn rate_switch_concat() {
    let a = tone(44100, 16, 4_321, 9);
    let b = tone(96000, 24, 1_234, 10);
    let p = play(None, &[a.clone(), b.clone()]);
    let mut want = encode(&content(&a), 16, Container::S16);
    want.extend(encode(&content(&b), 24, Container::S24));
    assert_eq!(p.out, want);
}

#[test]
fn seek_file_source_is_sample_exact() {
    let t = tone(44100, 16, 100_000, 11);
    let mut p = Player::new(None);
    p.file("file:///t", &t);
    p.load("file:///t");
    p.command(EngineCommand::Seek { ms: 1234 });
    let pos = p
        .events
        .iter()
        .rev()
        .find_map(|e| match e {
            EngineEvent::Position { pos_ms, .. } => Some(*pos_ms),
            _ => None,
        })
        .expect("position after seek");
    assert!(pos <= 1234 && pos > 1000);
    p.play_out();
    let golden = encode(&content(&t), 16, Container::S16);
    let skipped = 1234 * 44100 / 1000 * 4;
    assert_eq!(p.out, &golden[skipped..]);
}

#[test]
fn pause_resume_keeps_position_and_bits() {
    let t = tone(44100, 16, 50_000, 12);
    let mut p = Player::new(None);
    p.file("file:///t", &t);
    p.load("file:///t");
    for _ in 0..5 {
        p.turn();
    }
    p.command(EngineCommand::Pause);
    assert_eq!(p.engine.status, TransportStatus::Paused);
    assert!(matches!(p.engine.turn(), Turn::Sleep));
    let (pos, len) = (p.engine.shared.pos_ms, p.out.len());
    p.command(EngineCommand::Pause);
    assert_eq!((p.engine.shared.pos_ms, p.out.len()), (pos, len));
    p.command(EngineCommand::Resume);
    assert_eq!(p.engine.shared.pos_ms, pos);
    p.play_out();
    assert_eq!(p.out, encode(&content(&t), 16, Container::S16));
}

#[test]
fn track_ended_reasons() {
    let mut p = Player::new(None);
    p.file("file:///a", &tone(44100, 16, 5_000, 13));
    p.file("file:///b", &tone(44100, 24, 5_000, 14));
    p.load("file:///a");
    p.load("file:///b");
    p.command(EngineCommand::Stop);
    assert_eq!(p.reasons(), [EndReason::Replaced, EndReason::Stopped]);
    p.load("file:///a");
    p.play_out();
    assert_eq!(p.reasons().last(), Some(&EndReason::Finished));
}

#[test]
fn volume_is_not_bitperfect() {
    let mut p = Player::new(None);
    p.file("file:///a", &tone(44100, 16, 5_000, 15));
    p.command(EngineCommand::SetVolume { percent: 50 });
    p.load("file:///a");
    assert!(!p.engine.shared.chain.bit_perfect, "volume processing must clear flag");
    p.command(EngineCommand::Stop);
    assert_eq!(p.engine.status, TransportStatus::Stopped);
}

#[test]
fn unplugged_device_stops_cleanly() {
    let mut p = Player::new(None);
    p.file("file:///a", &tone(44100, 16, 5_000, 16));
    p.load("file:///a");
    p.broken = true;
    p.play_out();
    assert_eq!(p.engine.status, TransportStatus::Stopped);
    assert_eq!(p.reasons(), [EndReason::Error]);
    assert!(p.events.iter().any(|e| matches!(e, EngineEvent::Error { .. })));
}

#[test]
fn a_missing_track_is_an_error() {
    let mut p = Player::new(None);
    p.load("file:///nowhere");
    assert_eq!(p.engine.status, TransportStatus::Stopped);
    assert!(p.events.iter().any(|e| matches!(e, EngineEvent::Error { .. })));
}

#[test]
fn clearing_the_successor_stops_after_the_track() {
    let a = tone(44100, 16, 3_000, 17);
    let mut p = Player::new(None);
    p.file("file:///a", &a);
    p.file("file:///b", &a);
    p.load("file:///a");
    p.enqueue("file:///b");
    p.enqueue("");
    p.play_out();
    assert_eq!(p.out, encode(&content(&a), 16, Container::S16));
}

#[test]
fn containers_encode_as_the_reference_does() {
    let t = tone(44100, 16, 100, 18);
    for c in Container::ALL {
        let mut out = Vec::new();
        append_container(&mut out, &content(&t), c, 16);
        assert_eq!(out, encode(&content(&t), 16, c));
    }
}

#[test]
fn formats_are_compared_by_value() {
    let f = PcmFormat { sample_rate: 44100, channels: 2, bits: 16 };
    assert_eq!(f, PcmFormat { sample_rate: 44100, channels: 2, bits: 16 });
}
