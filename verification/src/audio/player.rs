//! The playback engine as a state machine.
//!
//! The engine owns the transport: which track plays, which comes next, where
//! playback stands, and what the sink is open for. Opening and decoding
//! tracks, and talking to the device, is work for others: after each step the
//! engine's phase says what it waits for, and the effects of the step are
//! carried out in order before the answer is handed in.

use vstd::prelude::*;

use crate::audio::device::{DeviceInfo, DeviceKind, DeviceView};
use crate::audio::error::AudioError;
use crate::audio::fmt::{Container, PcmFormat};
use crate::audio::gain::{preamp_bits, GainStage, TrackOpts};
use crate::text::text_opt;

verus! {

#[derive(Debug, Clone, Copy, PartialEq, Eq, Structural)]
pub enum TransportStatus {
    Stopped,
    Playing,
    Paused,
}

#[derive(Debug)]
pub enum EngineCommand {
    Load { uri: String, opts: TrackOpts },
    EnqueueNext { uri: String, opts: TrackOpts },
    Pause,
    Resume,
    Stop,
    Seek { ms: u64 },
    SetVolume { percent: u32 },
    /// Global preamp in dB (`f32` bits), added to each track's own gain.
    SetGain { db: u32 },
    SetMute { muted: bool },
}

/// Why a track stopped playing.
#[derive(Debug, Clone, Copy, PartialEq, Eq, Structural)]
pub enum EndReason {
    /// Played to the end.
    Finished,
    /// `Stop` command.
    Stopped,
    /// Another track was loaded over it.
    Replaced,
    /// Decode or device error.
    Error,
}

#[derive(Debug, Clone)]
pub enum EngineEvent {
    Status { status: TransportStatus },
    TrackStarted { uri: String, format: Option<PcmFormat> },
    TrackEnded { uri: String, reason: EndReason },
    Position { pos_ms: u64, dur_ms: Option<u64> },
    /// Title announced in-band by an internet radio (ICY metadata).
    StreamTitle { title: String },
    Error { message: String },
}

/// The contents of an event.
pub enum EventView {
    Status { status: TransportStatus },
    TrackStarted { uri: Seq<char>, format: Option<PcmFormat> },
    TrackEnded { uri: Seq<char>, reason: EndReason },
    Position { pos_ms: u64, dur_ms: Option<u64> },
    StreamTitle { title: Seq<char> },
    Error { message: Seq<char> },
}

impl View for EngineEvent {
    type V = EventView;

    open spec fn view(&self) -> EventView {
        match self {
            EngineEvent::Status { status } => EventView::Status { status: *status },
            EngineEvent::TrackStarted { uri, format } => EventView::TrackStarted {
                uri: uri@,
                format: *format,
            },
            EngineEvent::TrackEnded { uri, reason } => EventView::TrackEnded {
                uri: uri@,
                reason: *reason,
            },
            EngineEvent::Position { pos_ms, dur_ms } => EventView::Position {
                pos_ms: *pos_ms,
                dur_ms: *dur_ms,
            },
            EngineEvent::StreamTitle { title } => EventView::StreamTitle { title: title@ },
            EngineEvent::Error { message } => EventView::Error { message: message@ },
        }
    }
}

/// What a step asks to be done, in order. The outcome of the sink's effects
/// does not matter.
#[derive(Debug)]
pub enum Effect {
    Publish(EngineEvent),
    /// Throw away queued, not yet audible audio.
    DiscardSink,
    /// Let queued audio play out.
    DrainSink,
    /// Release the device.
    CloseSink,
    /// Recompute the chain for the current gain.
    RefreshChain,
}

/// The contents of an effect.
pub enum EffectView {
    Publish(EventView),
    DiscardSink,
    DrainSink,
    CloseSink,
    RefreshChain,
}

impl View for Effect {
    type V = EffectView;

    open spec fn view(&self) -> EffectView {
        match self {
            Effect::Publish(e) => EffectView::Publish(e@),
            Effect::DiscardSink => EffectView::DiscardSink,
            Effect::DrainSink => EffectView::DrainSink,
            Effect::CloseSink => EffectView::CloseSink,
            Effect::RefreshChain => EffectView::RefreshChain,
        }
    }
}

/// The contents of a list of effects.
pub open spec fn effect_views(v: Seq<Effect>) -> Seq<EffectView> {
    Seq::new(v.len(), |i: int| v[i]@)
}

// ---------------------------------------------------------------------------
// State
// ---------------------------------------------------------------------------

#[derive(Debug, Clone)]
pub struct ChainInfo {
    pub device: String,
    pub device_kind: DeviceKind,
    pub format: Option<PcmFormat>,
    /// Container actually negotiated with the device (e.g. `S24_3LE`).
    pub container: Option<Container>,
    pub volume: u32,
    /// Lossless all the way: native rate, lossless container, unity gain
    /// (volume 100, no ReplayGain/preamp, not muted), and a device kind that
    /// excludes mixing/resampling.
    pub bit_perfect: bool,
}

/// The contents of a `ChainInfo`.
pub struct ChainView {
    pub device: Seq<char>,
    pub device_kind: DeviceKind,
    pub format: Option<PcmFormat>,
    pub container: Option<Container>,
    pub volume: u32,
    pub bit_perfect: bool,
}

impl View for ChainInfo {
    type V = ChainView;

    open spec fn view(&self) -> ChainView {
        ChainView {
            device: self.device@,
            device_kind: self.device_kind,
            format: self.format,
            container: self.container,
            volume: self.volume,
            bit_perfect: self.bit_perfect,
        }
    }
}

/// The chain for a device, a format and a gain stage that is unity or not.
pub open spec fn chain(
    device: DeviceView,
    fmt: Option<PcmFormat>,
    container: Option<Container>,
    gain: GainStage,
    unity: bool,
) -> ChainView {
    ChainView {
        device: device.name,
        device_kind: device.kind,
        format: fmt,
        container,
        volume: gain.volume,
        bit_perfect: unity && device.kind != DeviceKind::Virtual,
    }
}

pub fn chain_of(
    device: &DeviceInfo,
    fmt: Option<PcmFormat>,
    container: Option<Container>,
    gain: &GainStage,
    unity: bool,
) -> (c: ChainInfo)
    ensures
        c@ == chain(device@, fmt, container, *gain, unity),
{
    ChainInfo {
        device: device.name.clone(),
        device_kind: device.kind,
        format: fmt,
        container,
        volume: gain.volume,
        bit_perfect: unity && device.kind.is_bit_perfect(),
    }
}

/// What the engine shows of itself.
#[derive(Debug, Clone)]
pub struct PlayerShared {
    pub status: TransportStatus,
    pub track_uri: Option<String>,
    pub next_uri: Option<String>,
    pub pos_ms: u64,
    pub dur_ms: Option<u64>,
    pub seekable: bool,
    pub chain: ChainInfo,
    /// Current gain stage (volume, preamp, track gain/peak, mute).
    pub gain: GainStage,
    /// Last in-band stream title of the current track (internet radio).
    pub stream_title: Option<String>,
}

/// The contents of a `PlayerShared`.
pub struct SharedView {
    pub status: TransportStatus,
    pub track_uri: Option<Seq<char>>,
    pub next_uri: Option<Seq<char>>,
    pub pos_ms: u64,
    pub dur_ms: Option<u64>,
    pub seekable: bool,
    pub chain: ChainView,
    pub gain: GainStage,
    pub stream_title: Option<Seq<char>>,
}

impl View for PlayerShared {
    type V = SharedView;

    open spec fn view(&self) -> SharedView {
        SharedView {
            status: self.status,
            track_uri: text_opt(self.track_uri),
            next_uri: text_opt(self.next_uri),
            pos_ms: self.pos_ms,
            dur_ms: self.dur_ms,
            seekable: self.seekable,
            chain: self.chain@,
            gain: self.gain,
            stream_title: text_opt(self.stream_title),
        }
    }
}

/// A track that has been opened, with whatever decodes it.
#[derive(Debug)]
pub struct Track<S> {
    pub uri: String,
    pub duration_ms: Option<u64>,
    pub format: Option<PcmFormat>,
    pub seekable: bool,
    pub source: S,
}

/// The contents of a `Track`.
pub struct TrackView<S> {
    pub uri: Seq<char>,
    pub duration_ms: Option<u64>,
    pub format: Option<PcmFormat>,
    pub seekable: bool,
    pub source: S,
}

impl<S> View for Track<S> {
    type V = TrackView<S>;

    open spec fn view(&self) -> TrackView<S> {
        TrackView {
            uri: self.uri@,
            duration_ms: self.duration_ms,
            format: self.format,
            seekable: self.seekable,
            source: self.source,
        }
    }
}

/// The track that comes after the current one.
#[derive(Debug)]
pub enum NextSource<S> {
    Pending(String),
    Open(Track<S>),
}

pub enum NextView<S> {
    Pending(Seq<char>),
    Open(TrackView<S>),
}

impl<S> View for NextSource<S> {
    type V = NextView<S>;

    open spec fn view(&self) -> NextView<S> {
        match self {
            NextSource::Pending(uri) => NextView::Pending(uri@),
            NextSource::Open(t) => NextView::Open(t@),
        }
    }
}

/// What a track is opened for.
#[derive(Debug, Clone, Copy, PartialEq, Eq, Structural)]
pub enum Purpose {
    /// To play now.
    Load,
    /// To play after the current one, without a gap.
    Preload,
    /// To play now that the current one is over.
    Transition,
}

/// What the engine waits for.
#[derive(Debug)]
pub enum Phase<S> {
    /// A command, or the next turn of the pump.
    Ready,
    /// The track at `uri`, opened and decoded until its format is known.
    OpenTrack { uri: String, opts: TrackOpts, purpose: Purpose },
    /// The sink, opened for a track about to begin.
    OpenSink { fmt: PcmFormat, track: Track<S>, opts: TrackOpts, purpose: Purpose },
    /// The sink, opened again for a current track that changed its format.
    ReopenSink { fmt: PcmFormat, frames: u64, end_of_stream: bool },
    /// The sink, paused.
    Pausing,
    /// The sink, resumed.
    Resuming,
    /// The current source, moved to a position.
    Seeking { ms: u64 },
    /// The sink, rid of what was queued before a seek.
    SeekDiscard,
    /// The current source, decoded until there are samples.
    Pumping,
    /// The sink, with the decoded samples written.
    Writing { frames: u64, end_of_stream: bool },
}

pub enum PhaseView<S> {
    Ready,
    OpenTrack { uri: Seq<char>, opts: TrackOpts, purpose: Purpose },
    OpenSink { fmt: PcmFormat, track: TrackView<S>, opts: TrackOpts, purpose: Purpose },
    ReopenSink { fmt: PcmFormat, frames: u64, end_of_stream: bool },
    Pausing,
    Resuming,
    Seeking { ms: u64 },
    SeekDiscard,
    Pumping,
    Writing { frames: u64, end_of_stream: bool },
}

impl<S> View for Phase<S> {
    type V = PhaseView<S>;

    open spec fn view(&self) -> PhaseView<S> {
        match self {
            Phase::Ready => PhaseView::Ready,
            Phase::OpenTrack { uri, opts, purpose } => PhaseView::OpenTrack {
                uri: uri@,
                opts: *opts,
                purpose: *purpose,
            },
            Phase::OpenSink { fmt, track, opts, purpose } => PhaseView::OpenSink {
                fmt: *fmt,
                track: track@,
                opts: *opts,
                purpose: *purpose,
            },
            Phase::ReopenSink { fmt, frames, end_of_stream } => PhaseView::ReopenSink {
                fmt: *fmt,
                frames: *frames,
                end_of_stream: *end_of_stream,
            },
            Phase::Pausing => PhaseView::Pausing,
            Phase::Resuming => PhaseView::Resuming,
            Phase::Seeking { ms } => PhaseView::Seeking { ms: *ms },
            Phase::SeekDiscard => PhaseView::SeekDiscard,
            Phase::Pumping => PhaseView::Pumping,
            Phase::Writing { frames, end_of_stream } => PhaseView::Writing {
                frames: *frames,
                end_of_stream: *end_of_stream,
            },
        }
    }
}

/// The engine.
#[derive(Debug)]
pub struct Engine<S> {
    pub device: DeviceInfo,
    /// What the sink is open for.
    pub sink_format: Option<PcmFormat>,
    pub sink_container: Option<Container>,
    pub shared: PlayerShared,
    /// Authoritative transport status (mirrored into `shared`).
    pub status: TransportStatus,
    pub current: Option<Track<S>>,
    pub next: Option<(NextSource<S>, TrackOpts)>,
    /// `gain.track` holds the options of the current track.
    pub gain: GainStage,
    /// Frames of the current track handed to the sink.
    pub pos_frames: u64,
    pub phase: Phase<S>,
}

/// The contents of an `Engine`.
pub struct EngineView<S> {
    pub device: DeviceView,
    pub sink_format: Option<PcmFormat>,
    pub sink_container: Option<Container>,
    pub shared: SharedView,
    pub status: TransportStatus,
    pub current: Option<TrackView<S>>,
    pub next: Option<(NextView<S>, TrackOpts)>,
    pub gain: GainStage,
    pub pos_frames: u64,
    pub phase: PhaseView<S>,
}

pub open spec fn track_opt<S>(t: Option<Track<S>>) -> Option<TrackView<S>> {
    match t {
        Some(t) => Some(t@),
        None => None,
    }
}

pub open spec fn next_opt<S>(n: Option<(NextSource<S>, TrackOpts)>) -> Option<
    (NextView<S>, TrackOpts),
> {
    match n {
        Some(n) => Some((n.0@, n.1)),
        None => None,
    }
}

impl<S> View for Engine<S> {
    type V = EngineView<S>;

    open spec fn view(&self) -> EngineView<S> {
        EngineView {
            device: self.device@,
            sink_format: self.sink_format,
            sink_container: self.sink_container,
            shared: self.shared@,
            status: self.status,
            current: track_opt(self.current),
            next: next_opt(self.next),
            gain: self.gain,
            pos_frames: self.pos_frames,
            phase: self.phase@,
        }
    }
}

/// What was found out about the track to open.
#[derive(Debug)]
pub enum Opened<S> {
    /// Opened, with its format known.
    Ready(Track<S>),
    /// It cannot be opened.
    Failed(AudioError),
    /// It was opened, but nothing could be decoded.
    Undecodable,
}

/// What a turn of the decoder gave.
#[derive(Debug, Clone, Copy, PartialEq, Eq, Structural)]
pub struct Pumped {
    /// The format of the current track now.
    pub format: Option<PcmFormat>,
    /// Decoded samples waiting for the sink.
    pub samples: u64,
    pub end_of_stream: bool,
}

/// How often the position is reported while playing.
pub const POSITION_EVERY_MS: u64 = 250;

/// How long before the end of a track the next one is opened.
pub const PRELOAD_MS: u64 = 8_000;

/// Sample rate assumed where none is known.
pub const DEFAULT_RATE: u32 = 44100;

// ---------------------------------------------------------------------------
// What the steps do
// ---------------------------------------------------------------------------

/// The engine after some effects.
pub struct Out<S> {
    pub engine: EngineView<S>,
    pub effects: Seq<EffectView>,
}

pub open spec fn out<S>(engine: EngineView<S>, effects: Seq<EffectView>) -> Out<S> {
    Out { engine, effects }
}

/// `b` after `a`'s effects.
pub open spec fn after<S>(effects: Seq<EffectView>, b: Out<S>) -> Out<S> {
    Out { engine: b.engine, effects: effects + b.effects }
}

pub open spec fn with_phase<S>(e: EngineView<S>, phase: PhaseView<S>) -> EngineView<S> {
    EngineView { phase, ..e }
}

/// The status is set, mirrored and reported.
pub open spec fn status_set<S>(e: EngineView<S>, status: TransportStatus) -> Out<S> {
    Out {
        engine: EngineView { status, shared: SharedView { status, ..e.shared }, ..e },
        effects: seq![EffectView::Publish(EventView::Status { status })],
    }
}

/// The position: audible frames of the current track, in milliseconds.
pub open spec fn position_ms<S>(e: EngineView<S>, delay: u64) -> u64 {
    let rate = match e.sink_format {
        Some(f) => f.sample_rate,
        None => match e.current {
            Some(t) => match t.format {
                Some(f) => f.sample_rate,
                None => DEFAULT_RATE,
            },
            None => DEFAULT_RATE,
        },
    };
    let audible = if e.pos_frames >= delay {
        e.pos_frames - delay
    } else {
        0
    };
    let ms = audible * 1000 / rate as int;
    if ms <= u64::MAX {
        ms as u64
    } else {
        u64::MAX
    }
}

pub open spec fn position_reported<S>(e: EngineView<S>, delay: u64) -> Out<S> {
    let pos_ms = position_ms(e, delay);
    Out {
        engine: EngineView { shared: SharedView { pos_ms, ..e.shared }, ..e },
        effects: seq![
            EffectView::Publish(EventView::Position { pos_ms, dur_ms: e.shared.dur_ms }),
        ],
    }
}

/// The current track, if any, is over.
pub open spec fn current_ended<S>(e: EngineView<S>, reason: EndReason) -> Out<S> {
    match e.current {
        Some(t) => Out {
            engine: EngineView { current: None, ..e },
            effects: seq![EffectView::Publish(EventView::TrackEnded { uri: t.uri, reason })],
        },
        None => out(e, Seq::empty()),
    }
}

/// The device is released and the engine reports `Stopped`. Draining lets
/// queued audio play out (natural end of the queue) instead of cutting it.
pub open spec fn stopped<S>(e: EngineView<S>, drain: bool) -> Out<S> {
    let released = EngineView {
        sink_format: None,
        sink_container: None,
        current: None,
        pos_frames: 0,
        phase: PhaseView::Ready,
        shared: SharedView {
            track_uri: None,
            next_uri: None,
            pos_ms: 0,
            dur_ms: None,
            seekable: false,
            stream_title: None,
            ..e.shared
        },
        ..e
    };
    after(
        seq![
            if drain {
                EffectView::DrainSink
            } else {
                EffectView::DiscardSink
            },
            EffectView::CloseSink,
        ],
        status_set(released, TransportStatus::Stopped),
    )
}

pub open spec fn error_effect(message: Seq<char>) -> EffectView {
    EffectView::Publish(EventView::Error { message })
}

/// The device failed under us (e.g. USB DAC unplugged): stop cleanly.
pub open spec fn sink_failed<S>(e: EngineView<S>, err: AudioError) -> Out<S> {
    let message = if err is DeviceGone {
        err.text() + "; playback stopped"@
    } else {
        "audio output error: "@ + err.text()
    };
    let ended = current_ended(EngineView { next: None, ..e }, EndReason::Error);
    after(
        seq![error_effect(message)] + ended.effects + seq![EffectView::CloseSink],
        stopped(ended.engine, false),
    )
}

/// Opening a track to play now; the current one is replaced.
pub open spec fn loading<S>(e: EngineView<S>, uri: Seq<char>, opts: TrackOpts) -> Out<S> {
    let ended = current_ended(
        EngineView { next: None, shared: SharedView { next_uri: None, ..e.shared }, ..e },
        EndReason::Replaced,
    );
    Out {
        engine: with_phase(
            ended.engine,
            PhaseView::OpenTrack { uri, opts, purpose: Purpose::Load },
        ),
        effects: ended.effects,
    }
}

/// A track begins on a sink that runs at its format.
pub open spec fn begun<S>(e: EngineView<S>, t: TrackView<S>, opts: TrackOpts) -> Out<S> {
    Out {
        engine: EngineView {
            gain: GainStage { track: opts, ..e.gain },
            pos_frames: 0,
            shared: SharedView {
                track_uri: Some(t.uri),
                pos_ms: 0,
                dur_ms: t.duration_ms,
                seekable: t.seekable,
                stream_title: None,
                ..e.shared
            },
            current: Some(t),
            phase: PhaseView::Ready,
            ..e
        },
        effects: seq![
            EffectView::RefreshChain,
            EffectView::Publish(EventView::TrackStarted { uri: t.uri, format: t.format }),
        ],
    }
}

/// A track has been opened to play now. A fresh load drops what is queued and
/// opens the sink anew. After another track the sink stays open where it runs
/// at the right format already, which is what makes the transition gapless;
/// otherwise queued audio plays out first.
pub open spec fn started<S>(
    e: EngineView<S>,
    t: TrackView<S>,
    opts: TrackOpts,
    purpose: Purpose,
) -> Out<S> {
    let fresh = purpose == Purpose::Load;
    match t.format {
        None => stopped(e, !fresh),
        Some(fmt) => if !fresh && e.sink_format == Some(fmt) {
            begun(e, t, opts)
        } else {
            Out {
                engine: EngineView {
                    sink_format: None,
                    sink_container: None,
                    phase: PhaseView::OpenSink { fmt, track: t, opts, purpose },
                    ..e
                },
                effects: seq![
                    if fresh {
                        EffectView::DiscardSink
                    } else {
                        EffectView::DrainSink
                    },
                    EffectView::CloseSink,
                ],
            }
        },
    }
}

/// Current track finished: continue gaplessly with the next one, if any.
pub open spec fn transitioned<S>(e: EngineView<S>) -> Out<S> {
    let ended = current_ended(e, EndReason::Finished);
    let freed = EngineView {
        next: None,
        shared: SharedView { next_uri: None, ..ended.engine.shared },
        ..ended.engine
    };
    match e.next {
        Some((NextView::Open(t), opts)) => after(
            ended.effects,
            started(freed, t, opts, Purpose::Transition),
        ),
        Some((NextView::Pending(uri), opts)) => out(
            with_phase(freed, PhaseView::OpenTrack { uri, opts, purpose: Purpose::Transition }),
            ended.effects,
        ),
        None => after(ended.effects, stopped(freed, true)),
    }
}

/// A command.
pub open spec fn commanded<S>(e: EngineView<S>, cmd: EngineCommand, delay: u64) -> Out<S> {
    match cmd {
        EngineCommand::Load { uri, opts } => loading(e, uri@, opts),
        EngineCommand::EnqueueNext { uri, opts } => if uri@.len() == 0 {
            // Control points clear the next slot this way.
            out(
                EngineView { next: None, shared: SharedView { next_uri: None, ..e.shared }, ..e },
                Seq::empty(),
            )
        } else if e.current is None {
            loading(e, uri@, opts)
        } else {
            out(
                EngineView {
                    next: Some((NextView::Pending(uri@), opts)),
                    shared: SharedView { next_uri: Some(uri@), ..e.shared },
                    ..e
                },
                Seq::empty(),
            )
        },
        EngineCommand::Pause => if e.status == TransportStatus::Playing {
            let reported = position_reported(e, delay);
            out(with_phase(reported.engine, PhaseView::Pausing), reported.effects)
        } else {
            out(e, Seq::empty())
        },
        EngineCommand::Resume => if e.status == TransportStatus::Paused {
            out(with_phase(e, PhaseView::Resuming), Seq::empty())
        } else {
            out(e, Seq::empty())
        },
        EngineCommand::Stop => {
            let ended = current_ended(EngineView { next: None, ..e }, EndReason::Stopped);
            after(ended.effects, stopped(ended.engine, false))
        },
        EngineCommand::Seek { ms } => match e.current {
            Some(t) => if t.seekable {
                out(with_phase(e, PhaseView::Seeking { ms }), Seq::empty())
            } else {
                out(e, Seq::empty())
            },
            None => out(e, Seq::empty()),
        },
        EngineCommand::SetVolume { percent } => out(
            EngineView {
                gain: GainStage {
                    volume: if percent <= 100 {
                        percent
                    } else {
                        100
                    },
                    ..e.gain
                },
                ..e
            },
            seq![EffectView::RefreshChain],
        ),
        EngineCommand::SetGain { db } => out(
            EngineView { gain: GainStage { preamp_db: preamp_bits(db), ..e.gain }, ..e },
            seq![EffectView::RefreshChain],
        ),
        EngineCommand::SetMute { muted } => out(
            EngineView { gain: GainStage { muted, ..e.gain }, ..e },
            seq![EffectView::RefreshChain],
        ),
    }
}

/// Whether the current track is so near its end that the next one is opened.
pub open spec fn near_end<S>(e: EngineView<S>) -> bool {
    match e.current {
        Some(t) => match (t.duration_ms, t.format) {
            (Some(dur), Some(f)) => e.pos_frames * 1000 / f.sample_rate as int + PRELOAD_MS >= dur,
            _ => false,
        },
        None => false,
    }
}

/// A turn of the pump.
pub open spec fn turned<S>(e: EngineView<S>, title: Option<Seq<char>>) -> Out<S> {
    match e.current {
        None => stopped(e, true),
        Some(t) => {
            let told = match title {
                Some(title) => out(
                    EngineView {
                        shared: SharedView { stream_title: Some(title), ..e.shared },
                        ..e
                    },
                    seq![EffectView::Publish(EventView::StreamTitle { title })],
                ),
                None => out(e, Seq::empty()),
            };
            match e.next {
                Some((NextView::Pending(uri), opts)) => if near_end(e) {
                    out(
                        EngineView {
                            next: None,
                            phase: PhaseView::OpenTrack { uri, opts, purpose: Purpose::Preload },
                            ..told.engine
                        },
                        told.effects,
                    )
                } else {
                    out(with_phase(told.engine, PhaseView::Pumping), told.effects)
                },
                _ => out(with_phase(told.engine, PhaseView::Pumping), told.effects),
            }
        },
    }
}

/// The current track has been decoded a little further.
pub open spec fn decoded<S>(e: EngineView<S>, r: Result<Pumped, AudioError>) -> Out<S> {
    let t = e.current->0;
    match r {
        Err(err) => {
            let ended = current_ended(e, EndReason::Error);
            after(
                seq![error_effect(t.uri + ": "@ + err.text())] + ended.effects,
                stopped(ended.engine, false),
            )
        },
        Ok(p) => {
            let known = EngineView {
                current: Some(TrackView { format: p.format, ..t }),
                phase: PhaseView::Ready,
                ..e
            };
            if p.samples > 0 {
                match p.format {
                    None => out(known, Seq::empty()),
                    Some(fmt) => {
                        let frames = frames_in(p.samples, fmt);
                        // A chained stream may change format mid-track.
                        if e.sink_format == Some(fmt) {
                            out(
                                with_phase(
                                    known,
                                    PhaseView::Writing { frames, end_of_stream: p.end_of_stream },
                                ),
                                Seq::empty(),
                            )
                        } else {
                            out(
                                EngineView {
                                    sink_format: None,
                                    sink_container: None,
                                    phase: PhaseView::ReopenSink {
                                        fmt,
                                        frames,
                                        end_of_stream: p.end_of_stream,
                                    },
                                    ..known
                                },
                                seq![EffectView::DrainSink, EffectView::CloseSink],
                            )
                        }
                    },
                }
            } else if p.end_of_stream {
                transitioned(known)
            } else {
                out(known, Seq::empty())
            }
        },
    }
}

/// Whole frames in a number of samples.
pub open spec fn frames_in(samples: u64, fmt: PcmFormat) -> u64 {
    (samples as int / (if fmt.channels == 0 {
        1
    } else {
        fmt.channels as int
    })) as u64
}

/// The sink took the samples, or failed.
pub open spec fn written<S>(
    e: EngineView<S>,
    frames: u64,
    end_of_stream: bool,
    r: Result<(), AudioError>,
) -> Out<S> {
    match r {
        Err(err) => sink_failed(e, err),
        Ok(()) => {
            let moved = EngineView {
                pos_frames: if e.pos_frames + frames <= u64::MAX {
                    (e.pos_frames + frames) as u64
                } else {
                    u64::MAX
                },
                phase: PhaseView::Ready,
                ..e
            };
            if end_of_stream {
                transitioned(moved)
            } else {
                out(moved, Seq::empty())
            }
        },
    }
}

/// The track that was asked for has been opened, or not.
pub open spec fn opened<S>(
    e: EngineView<S>,
    uri: Seq<char>,
    opts: TrackOpts,
    purpose: Purpose,
    o: Opened<S>,
) -> Out<S> {
    let idle = with_phase(e, PhaseView::Ready);
    let failed = |message: Seq<char>|
        match purpose {
            Purpose::Load => after(seq![error_effect(message)], stopped(idle, false)),
            Purpose::Preload => out(idle, seq![error_effect(message)]),
            Purpose::Transition => after(seq![error_effect(message)], stopped(idle, true)),
        };
    match o {
        Opened::Failed(err) => failed(uri + ": "@ + err.text()),
        Opened::Undecodable => failed("cannot decode "@ + uri),
        Opened::Ready(t) => match purpose {
            Purpose::Preload => out(
                EngineView { next: Some((NextView::Open(t@), opts)), ..idle },
                Seq::empty(),
            ),
            _ => started(idle, t@, opts, purpose),
        },
    }
}

/// The sink has been opened, or refuses.
pub open spec fn sink_opened<S>(
    e: EngineView<S>,
    r: Result<Container, AudioError>,
) -> Out<S> {
    let refused = |err: AudioError| error_effect(e.device.name + ": "@ + err.text());
    let idle = with_phase(e, PhaseView::Ready);
    match (e.phase, r) {
        (PhaseView::OpenSink { fmt, track, opts, purpose }, Ok(c)) => {
            let running = EngineView { sink_format: Some(fmt), sink_container: Some(c), ..idle };
            let b = begun(running, track, opts);
            if purpose == Purpose::Load {
                after(b.effects, status_set(b.engine, TransportStatus::Playing))
            } else {
                b
            }
        },
        (PhaseView::OpenSink { .. }, Err(err)) => after(
            seq![refused(err)],
            stopped(idle, false),
        ),
        (PhaseView::ReopenSink { fmt, frames, end_of_stream }, Ok(c)) => out(
            EngineView {
                sink_format: Some(fmt),
                sink_container: Some(c),
                phase: PhaseView::Writing { frames, end_of_stream },
                ..e
            },
            seq![EffectView::RefreshChain],
        ),
        (_, Err(err)) => {
            let ended = current_ended(idle, EndReason::Error);
            after(seq![refused(err)] + ended.effects, stopped(ended.engine, false))
        },
        _ => out(e, Seq::empty()),
    }
}

/// The answer to the phase that opens a track.
pub open spec fn open_answered<S>(e: EngineView<S>, o: Opened<S>) -> Out<S> {
    match e.phase {
        PhaseView::OpenTrack { uri, opts, purpose } => opened(e, uri, opts, purpose, o),
        _ => out(e, Seq::empty()),
    }
}

/// The answer to the phase that writes samples.
pub open spec fn write_answered<S>(e: EngineView<S>, r: Result<(), AudioError>) -> Out<S> {
    match e.phase {
        PhaseView::Writing { frames, end_of_stream } => written(e, frames, end_of_stream, r),
        _ => out(e, Seq::empty()),
    }
}

/// The sink has been halted, or failed.
pub open spec fn sink_paused<S>(e: EngineView<S>, r: Result<(), AudioError>) -> Out<S> {
    let idle = with_phase(e, PhaseView::Ready);
    match r {
        Ok(()) => status_set(idle, TransportStatus::Paused),
        Err(err) => sink_failed(idle, err),
    }
}

/// The sink goes on, or failed.
pub open spec fn sink_resumed<S>(
    e: EngineView<S>,
    r: Result<(), AudioError>,
    delay: u64,
) -> Out<S> {
    let idle = with_phase(e, PhaseView::Ready);
    match r {
        Ok(()) => {
            let s = status_set(idle, TransportStatus::Playing);
            after(s.effects, position_reported(s.engine, delay))
        },
        Err(err) => sink_failed(idle, err),
    }
}

/// The source has been moved to a position, or could not be.
pub open spec fn source_seeked<S>(e: EngineView<S>, frames: Option<u64>) -> Out<S> {
    match frames {
        Some(n) => out(
            EngineView { pos_frames: n, phase: PhaseView::SeekDiscard, ..e },
            Seq::empty(),
        ),
        None => out(with_phase(e, PhaseView::Ready), Seq::empty()),
    }
}

/// The sink is rid of what was queued before the seek, or failed.
pub open spec fn sink_discarded<S>(
    e: EngineView<S>,
    r: Result<(), AudioError>,
    delay: u64,
) -> Out<S> {
    let idle = with_phase(e, PhaseView::Ready);
    match r {
        Ok(()) => position_reported(idle, delay),
        Err(err) => sink_failed(idle, err),
    }
}

/// The chain for the current gain. What the sink is open for counts; while it
/// is closed, what it was last open for.
pub open spec fn chain_refreshed<S>(e: EngineView<S>, unity: bool) -> EngineView<S> {
    let fmt = match e.sink_format {
        Some(f) => Some(f),
        None => e.shared.chain.format,
    };
    let container = match e.sink_container {
        Some(c) => Some(c),
        None => e.shared.chain.container,
    };
    EngineView {
        shared: SharedView {
            chain: chain(e.device, fmt, container, e.gain, unity),
            gain: e.gain,
            ..e.shared
        },
        ..e
    }
}

// ---------------------------------------------------------------------------
// Invariant
// ---------------------------------------------------------------------------

pub open spec fn rate_known(f: Option<PcmFormat>) -> bool {
    f matches Some(f) ==> f.sample_rate > 0
}

pub open spec fn next_rate_known<S>(n: Option<(NextView<S>, TrackOpts)>) -> bool {
    n matches Some((NextView::Open(t), _)) ==> rate_known(t.format)
}

/// What holds of the engine between steps.
pub open spec fn engine_wf<S>(e: EngineView<S>) -> bool {
    &&& e.shared.status == e.status
    &&& rate_known(e.sink_format)
    &&& e.current matches Some(t) ==> rate_known(t.format)
    &&& next_rate_known(e.next)
    &&& match e.phase {
        // At rest there is a current track exactly when the engine is not
        // stopped, and then the sink is open.
        PhaseView::Ready => (e.current is Some <==> e.status != TransportStatus::Stopped) && (
        e.current is Some ==> e.sink_format is Some),
        PhaseView::OpenTrack { purpose, .. } => if purpose == Purpose::Preload {
            e.current is Some && e.status == TransportStatus::Playing && e.sink_format is Some
        } else {
            e.current is None && (purpose == Purpose::Transition ==> e.status
                == TransportStatus::Playing && e.sink_format is Some)
        },
        PhaseView::OpenSink { fmt, track, purpose, .. } => e.current is None && fmt.sample_rate > 0
            && track.format == Some(fmt) && purpose != Purpose::Preload && (purpose
            == Purpose::Transition ==> e.status == TransportStatus::Playing),
        PhaseView::ReopenSink { fmt, .. } => (e.current matches Some(t) && t.format == Some(fmt))
            && fmt.sample_rate > 0 && e.status == TransportStatus::Playing,
        PhaseView::Pausing | PhaseView::Pumping => e.current is Some && e.status
            == TransportStatus::Playing && e.sink_format is Some,
        PhaseView::Resuming => e.current is Some && e.status == TransportStatus::Paused
            && e.sink_format is Some,
        PhaseView::Seeking { .. } | PhaseView::SeekDiscard => e.current is Some && e.status
            != TransportStatus::Stopped && e.sink_format is Some,
        // Samples are written only to a sink that runs at exactly the
        // track's format.
        PhaseView::Writing { .. } => (e.current matches Some(t) && t.format is Some
            && e.sink_format == t.format) && e.status == TransportStatus::Playing,
    }
}

/// Follows the tracks through a sequence of events: a start needs that no
/// track plays, and an end needs that this track plays.
pub open spec fn follow(playing: Option<Seq<char>>, effects: Seq<EffectView>) -> Option<
    Option<Seq<char>>,
>
    decreases effects.len(),
{
    if effects.len() == 0 {
        Some(playing)
    } else {
        match follow(playing, effects.drop_last()) {
            None => None,
            Some(now) => match effects.last() {
                EffectView::Publish(EventView::TrackStarted { uri, .. }) => if now is None {
                    Some(Some(uri))
                } else {
                    None
                },
                EffectView::Publish(EventView::TrackEnded { uri, .. }) => if now == Some(uri) {
                    Some(None)
                } else {
                    None
                },
                _ => Some(now),
            },
        }
    }
}

/// The track that plays.
pub open spec fn playing_uri<S>(e: EngineView<S>) -> Option<Seq<char>> {
    match e.current {
        Some(t) => Some(t.uri),
        None => None,
    }
}

/// Whether the events of a step tell the truth about the tracks: each that
/// starts ends exactly once, and before the next one starts.
pub open spec fn followed<S>(e: EngineView<S>, o: Out<S>) -> bool {
    follow(playing_uri(e), o.effects) == Some(playing_uri(o.engine))
}

} // verus!
