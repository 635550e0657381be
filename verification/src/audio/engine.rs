//! The playback engine's steps.

use vstd::prelude::*;

use crate::audio::device::DeviceInfo;
use crate::audio::error::AudioError;
use crate::audio::fmt::Container;
use crate::audio::gain::{unity_stage, GainStage, TrackOpts};
use crate::audio::laws::{
    lemma_command_followed, lemma_command_in_order, lemma_decoded_followed, lemma_decoded_in_order,
    lemma_failed_in_order, lemma_opened_followed, lemma_opened_in_order, lemma_sink_failed,
    lemma_sink_opened_followed, lemma_sink_opened_in_order, lemma_status_followed,
    lemma_turn_followed, lemma_turn_in_order, lemma_written_followed, lemma_written_in_order,
};
use crate::audio::player::{
    begun, chain, chain_of, chain_refreshed, commanded, current_ended, decoded, effect_views,
    engine_wf, error_effect, followed, loading, near_end, open_answered, opened, position_ms,
    position_reported, rate_known, sink_discarded, sink_failed, sink_opened, sink_paused,
    sink_resumed, source_seeked, started, status_set, stopped, transitioned, turned, write_answered,
    Effect, EffectView, EndReason, Engine, EngineCommand, EngineEvent, EngineView, NextSource,
    Opened, Phase, PhaseView, PlayerShared, Pumped, Purpose, SharedView, Track, TransportStatus,
    DEFAULT_RATE, POSITION_EVERY_MS, PRELOAD_MS,
};
use crate::audio::promises::the_last_track_plays_out;
use crate::text::{concat2, concat3, text_opt};

verus! {

fn push_effect(effects: &mut Vec<Effect>, e: Effect)
    ensures
        effect_views(final(effects)@) == effect_views(old(effects)@).push(e@),
{
    let ghost before = effects@;
    let ghost v = e@;
    effects.push(e);
    assert(effect_views(effects@) == effect_views(before).push(v));
}

fn publish(effects: &mut Vec<Effect>, e: EngineEvent)
    ensures
        effect_views(final(effects)@) == effect_views(old(effects)@).push(
            EffectView::Publish(e@),
        ),
{
    push_effect(effects, Effect::Publish(e));
}

fn publish_error(effects: &mut Vec<Effect>, message: String)
    ensures
        effect_views(final(effects)@) == effect_views(old(effects)@).push(error_effect(message@)),
{
    publish(effects, EngineEvent::Error { message });
}

/// What the engine's loop does next.
#[derive(Debug, Clone, Copy, PartialEq, Eq, Structural)]
pub enum Turn {
    /// Apply everything queued, then produce audio if still playing, so a
    /// `load` + `seek`/`pause` burst takes effect atomically.
    ApplyThenPump,
    /// Paused / stopped: sleep on the command channel.
    Sleep,
}

impl<S> Engine<S> {
    /// A stopped engine on a device. Whether the fresh gain stage is unity is
    /// known: it is.
    pub fn new(device: DeviceInfo) -> (e: Engine<S>)
        ensures
            engine_wf(e@),
            e@ == (EngineView::<S> {
                device: device@,
                sink_format: None,
                sink_container: None,
                shared: SharedView {
                    status: TransportStatus::Stopped,
                    track_uri: None,
                    next_uri: None,
                    pos_ms: 0,
                    dur_ms: None,
                    seekable: false,
                    chain: chain(device@, None, None, unity_stage(), true),
                    gain: unity_stage(),
                    stream_title: None,
                },
                status: TransportStatus::Stopped,
                current: None,
                next: None,
                gain: unity_stage(),
                pos_frames: 0,
                phase: PhaseView::Ready,
            }),
    {
        let gain = GainStage::default();
        let chain = chain_of(&device, None, None, &gain, true);
        Engine {
            device,
            sink_format: None,
            sink_container: None,
            shared: PlayerShared {
                status: TransportStatus::Stopped,
                track_uri: None,
                next_uri: None,
                pos_ms: 0,
                dur_ms: None,
                seekable: false,
                chain,
                gain,
                stream_title: None,
            },
            status: TransportStatus::Stopped,
            current: None,
            next: None,
            gain,
            pos_frames: 0,
            phase: Phase::Ready,
        }
    }

    pub fn turn(&self) -> (t: Turn)
        ensures
            t == (if self.status == TransportStatus::Playing {
                Turn::ApplyThenPump
            } else {
                Turn::Sleep
            }),
    {
        if self.status == TransportStatus::Playing {
            Turn::ApplyThenPump
        } else {
            Turn::Sleep
        }
    }

    fn set_status(&mut self, status: TransportStatus, effects: &mut Vec<Effect>)
        ensures
            final(self)@ == status_set(old(self)@, status).engine,
            effect_views(final(effects)@) == effect_views(old(effects)@) + status_set(
                old(self)@,
                status,
            ).effects,
    {
        self.status = status;
        self.shared.status = status;
        publish(effects, EngineEvent::Status { status });
    }

    fn pos_ms(&self, delay: u64) -> (ms: u64)
        requires
            rate_known(self.sink_format),
            self@.current matches Some(t) ==> rate_known(t.format),
        ensures
            ms == position_ms(self@, delay),
    {
        let rate: u32 = match self.sink_format {
            Some(f) => f.sample_rate,
            None => match &self.current {
                Some(t) => match t.format {
                    Some(f) => f.sample_rate,
                    None => DEFAULT_RATE,
                },
                None => DEFAULT_RATE,
            },
        };
        let audible: u64 = self.pos_frames.saturating_sub(delay);
        let ms: u128 = audible as u128 * 1000 / rate as u128;
        if ms <= u64::MAX as u128 {
            ms as u64
        } else {
            u64::MAX
        }
    }

    fn emit_position(&mut self, delay: u64, effects: &mut Vec<Effect>)
        requires
            rate_known(old(self).sink_format),
            old(self)@.current matches Some(t) ==> rate_known(t.format),
        ensures
            final(self)@ == position_reported(old(self)@, delay).engine,
            effect_views(final(effects)@) == effect_views(old(effects)@) + position_reported(
                old(self)@,
                delay,
            ).effects,
    {
        let pos_ms = self.pos_ms(delay);
        self.shared.pos_ms = pos_ms;
        publish(effects, EngineEvent::Position { pos_ms, dur_ms: self.shared.dur_ms });
    }

    fn end_current(&mut self, reason: EndReason, effects: &mut Vec<Effect>)
        ensures
            final(self)@ == current_ended(old(self)@, reason).engine,
            effect_views(final(effects)@) == effect_views(old(effects)@) + current_ended(
                old(self)@,
                reason,
            ).effects,
    {
        let ghost before = effect_views(effects@);
        assert(before + Seq::<EffectView>::empty() == before);
        if let Some(t) = self.current.take() {
            publish(effects, EngineEvent::TrackEnded { uri: t.uri, reason });
        }
    }

    fn go_stopped(&mut self, drain: bool, effects: &mut Vec<Effect>)
        ensures
            final(self)@ == stopped(old(self)@, drain).engine,
            effect_views(final(effects)@) == effect_views(old(effects)@) + stopped(
                old(self)@,
                drain,
            ).effects,
    {
        if drain {
            push_effect(effects, Effect::DrainSink);
        } else {
            push_effect(effects, Effect::DiscardSink);
        }
        push_effect(effects, Effect::CloseSink);
        self.sink_format = None;
        self.sink_container = None;
        self.current = None;
        self.pos_frames = 0;
        self.phase = Phase::Ready;
        self.shared.track_uri = None;
        self.shared.next_uri = None;
        self.shared.pos_ms = 0;
        self.shared.dur_ms = None;
        self.shared.seekable = false;
        self.shared.stream_title = None;
        self.set_status(TransportStatus::Stopped, effects);
    }

    fn sink_failed(&mut self, e: &AudioError, effects: &mut Vec<Effect>)
        ensures
            final(self)@ == sink_failed(old(self)@, *e).engine,
            effect_views(final(effects)@) == effect_views(old(effects)@) + sink_failed(
                old(self)@,
                *e,
            ).effects,
    {
        let text = e.message();
        let message = match e {
            AudioError::DeviceGone { .. } => concat2(text.as_str(), "; playback stopped"),
            _ => concat2("audio output error: ", text.as_str()),
        };
        publish_error(effects, message);
        self.next = None;
        self.end_current(EndReason::Error, effects);
        push_effect(effects, Effect::CloseSink);
        self.go_stopped(false, effects);
        assert(effect_views(effects@) == effect_views(old(effects)@) + sink_failed(
            old(self)@,
            *e,
        ).effects);
    }

    fn load(&mut self, uri: String, opts: TrackOpts, effects: &mut Vec<Effect>)
        ensures
            final(self)@ == loading(old(self)@, uri@, opts).engine,
            effect_views(final(effects)@) == effect_views(old(effects)@) + loading(
                old(self)@,
                uri@,
                opts,
            ).effects,
    {
        self.next = None;
        self.shared.next_uri = None;
        self.end_current(EndReason::Replaced, effects);
        self.phase = Phase::OpenTrack { uri, opts, purpose: Purpose::Load };
    }

    fn begin(&mut self, track: Track<S>, opts: TrackOpts, effects: &mut Vec<Effect>)
        ensures
            final(self)@ == begun(old(self)@, track@, opts).engine,
            effect_views(final(effects)@) == effect_views(old(effects)@) + begun(
                old(self)@,
                track@,
                opts,
            ).effects,
    {
        self.gain.track = opts;
        self.pos_frames = 0;
        self.shared.track_uri = Some(track.uri.clone());
        self.shared.pos_ms = 0;
        self.shared.dur_ms = track.duration_ms;
        self.shared.seekable = track.seekable;
        self.shared.stream_title = None;
        push_effect(effects, Effect::RefreshChain);
        publish(
            effects,
            EngineEvent::TrackStarted { uri: track.uri.clone(), format: track.format },
        );
        self.current = Some(track);
        self.phase = Phase::Ready;
    }

    fn start(&mut self, track: Track<S>, opts: TrackOpts, purpose: Purpose, effects: &mut Vec<Effect>)
        ensures
            final(self)@ == started(old(self)@, track@, opts, purpose).engine,
            effect_views(final(effects)@) == effect_views(old(effects)@) + started(
                old(self)@,
                track@,
                opts,
                purpose,
            ).effects,
    {
        let fresh = purpose == Purpose::Load;
        let fmt = match track.format {
            Some(f) => f,
            None => {
                self.go_stopped(!fresh, effects);
                return;
            },
        };
        if !fresh {
            if let Some(open) = self.sink_format {
                if open == fmt {
                    self.begin(track, opts, effects);
                    return;
                }
            }
        }
        if fresh {
            push_effect(effects, Effect::DiscardSink);
        } else {
            push_effect(effects, Effect::DrainSink);
        }
        push_effect(effects, Effect::CloseSink);
        self.sink_format = None;
        self.sink_container = None;
        self.phase = Phase::OpenSink { fmt, track, opts, purpose };
    }

    fn transition(&mut self, effects: &mut Vec<Effect>)
        ensures
            final(self)@ == transitioned(old(self)@).engine,
            effect_views(final(effects)@) == effect_views(old(effects)@) + transitioned(
                old(self)@,
            ).effects,
    {
        let ghost e = self@;
        let ghost before = effect_views(effects@);
        self.end_current(EndReason::Finished, effects);
        self.shared.next_uri = None;
        let ghost ended = current_ended(e, EndReason::Finished).effects;
        match self.next.take() {
            Some((NextSource::Open(t), opts)) => {
                let ghost freed = self@;
                let ghost tv = t@;
                self.start(t, opts, Purpose::Transition, effects);
                assert(before + ended + started(freed, tv, opts, Purpose::Transition).effects
                    == before + (ended + started(freed, tv, opts, Purpose::Transition).effects));
            },
            Some((NextSource::Pending(uri), opts)) => {
                self.phase = Phase::OpenTrack { uri, opts, purpose: Purpose::Transition };
            },
            None => {
                let ghost freed = self@;
                self.go_stopped(true, effects);
                assert(before + ended + stopped(freed, true).effects == before + (ended
                    + stopped(freed, true).effects));
            },
        }
    }

    /// A command.
    pub fn handle(&mut self, cmd: EngineCommand, delay: u64) -> (effects: Vec<Effect>)
        requires
            engine_wf(old(self)@),
            old(self)@.phase is Ready,
        ensures
            final(self)@ == commanded(old(self)@, cmd, delay).engine,
            effect_views(effects@) == commanded(old(self)@, cmd, delay).effects,
            engine_wf(final(self)@),
            followed(old(self)@, commanded(old(self)@, cmd, delay)),
    {
        let mut effects: Vec<Effect> = Vec::new();
        assert(effect_views(effects@) == Seq::<EffectView>::empty());
        proof {
            lemma_command_in_order(self@, cmd, delay);
            lemma_command_followed(self@, cmd, delay);
        }
        match cmd {
            EngineCommand::Load { uri, opts } => self.load(uri, opts, &mut effects),
            EngineCommand::EnqueueNext { uri, opts } => {
                if uri.as_str().is_empty() {
                    self.next = None;
                    self.shared.next_uri = None;
                } else if self.current.is_none() {
                    self.load(uri, opts, &mut effects);
                } else {
                    self.shared.next_uri = Some(uri.clone());
                    self.next = Some((NextSource::Pending(uri), opts));
                }
            },
            EngineCommand::Pause => {
                if self.status == TransportStatus::Playing {
                    self.emit_position(delay, &mut effects);
                    self.phase = Phase::Pausing;
                }
            },
            EngineCommand::Resume => {
                if self.status == TransportStatus::Paused {
                    self.phase = Phase::Resuming;
                }
            },
            EngineCommand::Stop => {
                self.next = None;
                self.end_current(EndReason::Stopped, &mut effects);
                self.go_stopped(false, &mut effects);
            },
            EngineCommand::Seek { ms } => {
                let seekable = match &self.current {
                    Some(t) => t.seekable,
                    None => false,
                };
                if seekable {
                    self.phase = Phase::Seeking { ms };
                }
            },
            EngineCommand::SetVolume { percent } => {
                self.gain.set_volume(percent);
                push_effect(&mut effects, Effect::RefreshChain);
            },
            EngineCommand::SetGain { db } => {
                self.gain.set_preamp(db);
                push_effect(&mut effects, Effect::RefreshChain);
            },
            EngineCommand::SetMute { muted } => {
                self.gain.muted = muted;
                push_effect(&mut effects, Effect::RefreshChain);
            },
        }
        effects
    }

    fn is_near_end(&self) -> (r: bool)
        requires
            self@.current matches Some(t) ==> rate_known(t.format),
        ensures
            r == near_end(self@),
    {
        match &self.current {
            Some(t) => match (t.duration_ms, t.format) {
                (Some(dur), Some(f)) => self.pos_frames as u128 * 1000 / f.sample_rate as u128
                    + PRELOAD_MS as u128 >= dur as u128,
                _ => false,
            },
            None => false,
        }
    }

    /// A turn of the pump: open the next source shortly before the current one
    /// ends, so the transition is gapless; otherwise decode.
    /// `title` is the latest stream title that the source has announced since
    /// the last turn.
    pub fn pump(&mut self, title: Option<String>) -> (effects: Vec<Effect>)
        requires
            engine_wf(old(self)@),
            old(self)@.phase is Ready,
            old(self)@.status == TransportStatus::Playing,
        ensures
            final(self)@ == turned(old(self)@, text_opt(title)).engine,
            effect_views(effects@) == turned(old(self)@, text_opt(title)).effects,
            engine_wf(final(self)@),
            followed(old(self)@, turned(old(self)@, text_opt(title))),
    {
        let mut effects: Vec<Effect> = Vec::new();
        assert(effect_views(effects@) == Seq::<EffectView>::empty());
        proof {
            lemma_turn_in_order(self@, text_opt(title));
            lemma_turn_followed(self@, text_opt(title));
        }
        if self.current.is_none() {
            self.go_stopped(true, &mut effects);
            return effects;
        }
        if let Some(t) = title {
            self.shared.stream_title = Some(t.clone());
            publish(&mut effects, EngineEvent::StreamTitle { title: t });
        }
        let near = self.is_near_end();
        match self.next.take() {
            Some((NextSource::Pending(uri), opts)) => {
                if near {
                    self.phase = Phase::OpenTrack { uri, opts, purpose: Purpose::Preload };
                } else {
                    self.next = Some((NextSource::Pending(uri), opts));
                    self.phase = Phase::Pumping;
                }
            },
            other => {
                self.next = other;
                self.phase = Phase::Pumping;
            },
        }
        effects
    }

    /// The current source has been decoded until there are samples, or failed.
    pub fn on_pumped(&mut self, r: Result<Pumped, AudioError>) -> (effects: Vec<Effect>)
        requires
            engine_wf(old(self)@),
            old(self)@.phase is Pumping,
            r matches Ok(p) ==> rate_known(p.format),
        ensures
            final(self)@ == decoded(old(self)@, r).engine,
            effect_views(effects@) == decoded(old(self)@, r).effects,
            engine_wf(final(self)@),
            followed(old(self)@, decoded(old(self)@, r)),
            old(self)@.next is None && (r matches Ok(p) && p.samples == 0 && p.end_of_stream) ==> {
                &&& effect_views(effects@).len() == 4
                &&& effect_views(effects@)[1] == EffectView::DrainSink
                &&& effect_views(effects@)[2] == EffectView::CloseSink
                &&& !effect_views(effects@).contains(EffectView::DiscardSink)
            },
    {
        let ghost e = self@;
        let mut effects: Vec<Effect> = Vec::new();
        assert(effect_views(effects@) == Seq::<EffectView>::empty());
        proof {
            if e.next is None && (r matches Ok(p) && p.samples == 0 && p.end_of_stream) {
                the_last_track_plays_out(e, r->Ok_0.format);
            }
            lemma_decoded_in_order(e, r);
            lemma_decoded_followed(e, r);
        }
        match r {
            Err(err) => {
                let uri = match &self.current {
                    Some(t) => t.uri.clone(),
                    None => String::new(),
                };
                publish_error(&mut effects, concat3(uri.as_str(), ": ", err.message().as_str()));
                self.end_current(EndReason::Error, &mut effects);
                self.go_stopped(false, &mut effects);
                assert(effect_views(effects@) == decoded(e, r).effects);
            },
            Ok(p) => {
                if let Some(t) = self.current.take() {
                    self.current = Some(
                        Track {
                            uri: t.uri,
                            duration_ms: t.duration_ms,
                            format: p.format,
                            seekable: t.seekable,
                            source: t.source,
                        },
                    );
                }
                self.phase = Phase::Ready;
                if p.samples > 0 {
                    let fmt = match p.format {
                        Some(f) => f,
                        None => {
                            return effects;
                        },
                    };
                    let channels: u64 = if fmt.channels == 0 {
                        1
                    } else {
                        fmt.channels as u64
                    };
                    let frames: u64 = p.samples / channels;
                    let same = match self.sink_format {
                        Some(open) => open == fmt,
                        None => false,
                    };
                    if same {
                        self.phase = Phase::Writing { frames, end_of_stream: p.end_of_stream };
                    } else {
                        push_effect(&mut effects, Effect::DrainSink);
                        push_effect(&mut effects, Effect::CloseSink);
                        self.sink_format = None;
                        self.sink_container = None;
                        self.phase = Phase::ReopenSink {
                            fmt,
                            frames,
                            end_of_stream: p.end_of_stream,
                        };
                    }
                } else if p.end_of_stream {
                    self.transition(&mut effects);
                }
            },
        }
        effects
    }

    /// The track that was asked for has been opened, or not.
    pub fn on_opened(&mut self, o: Opened<S>) -> (effects: Vec<Effect>)
        requires
            engine_wf(old(self)@),
            old(self)@.phase is OpenTrack,
            o matches Opened::Ready(t) ==> rate_known(t.format),
        ensures
            final(self)@ == open_answered(old(self)@, o).engine,
            effect_views(effects@) == open_answered(old(self)@, o).effects,
            engine_wf(final(self)@),
            followed(old(self)@, open_answered(old(self)@, o)),
    {
        let ghost e = self@;
        let mut effects: Vec<Effect> = Vec::new();
        assert(effect_views(effects@) == Seq::<EffectView>::empty());
        let mut phase: Phase<S> = Phase::Ready;
        core::mem::swap(&mut phase, &mut self.phase);
        if let Phase::OpenTrack { uri, opts, purpose } = phase {
            proof {
                lemma_opened_in_order(e, uri@, opts, purpose, o);
                lemma_opened_followed(e, uri@, opts, purpose, o);
            }
            self.take_opened(uri, opts, purpose, o, &mut effects);
        }
        effects
    }

    fn take_opened(
        &mut self,
        uri: String,
        opts: TrackOpts,
        purpose: Purpose,
        o: Opened<S>,
        effects: &mut Vec<Effect>,
    )
        requires
            old(self)@.phase is Ready,
            effect_views(old(effects)@) == Seq::<EffectView>::empty(),
        ensures
            final(self)@ == opened(old(self)@, uri@, opts, purpose, o).engine,
            effect_views(final(effects)@) == opened(old(self)@, uri@, opts, purpose, o).effects,
    {
        let ghost e = self@;
        let message = match o {
            Opened::Ready(t) => {
                match purpose {
                    Purpose::Preload => {
                        self.next = Some((NextSource::Open(t), opts));
                    },
                    _ => {
                        self.start(t, opts, purpose, effects);
                    },
                }
                return;
            },
            Opened::Failed(err) => concat3(uri.as_str(), ": ", err.message().as_str()),
            Opened::Undecodable => concat2("cannot decode ", uri.as_str()),
        };
        publish_error(effects, message);
        match purpose {
            Purpose::Load => self.go_stopped(false, effects),
            Purpose::Preload => {},
            Purpose::Transition => self.go_stopped(true, effects),
        }
        assert(effect_views(effects@) == opened(e, uri@, opts, purpose, o).effects);
    }

    /// The sink has been opened, or refuses.
    pub fn on_sink_opened(&mut self, r: Result<Container, AudioError>) -> (effects: Vec<Effect>)
        requires
            engine_wf(old(self)@),
            old(self)@.phase is OpenSink || old(self)@.phase is ReopenSink,
        ensures
            final(self)@ == sink_opened(old(self)@, r).engine,
            effect_views(effects@) == sink_opened(old(self)@, r).effects,
            engine_wf(final(self)@),
            followed(old(self)@, sink_opened(old(self)@, r)),
    {
        let ghost e = self@;
        let mut effects: Vec<Effect> = Vec::new();
        assert(effect_views(effects@) == Seq::<EffectView>::empty());
        proof {
            lemma_sink_opened_in_order(e, r);
            lemma_sink_opened_followed(e, r);
        }
        let mut phase: Phase<S> = Phase::Ready;
        core::mem::swap(&mut phase, &mut self.phase);
        let c = match r {
            Ok(c) => c,
            Err(err) => {
                publish_error(
                    &mut effects,
                    concat3(self.device.name.as_str(), ": ", err.message().as_str()),
                );
                if let Phase::ReopenSink { .. } = phase {
                    self.end_current(EndReason::Error, &mut effects);
                }
                self.go_stopped(false, &mut effects);
                assert(effect_views(effects@) == sink_opened(e, r).effects);
                return effects;
            },
        };
        match phase {
            Phase::OpenSink { fmt, track, opts, purpose } => {
                self.sink_format = Some(fmt);
                self.sink_container = Some(c);
                self.begin(track, opts, &mut effects);
                if purpose == Purpose::Load {
                    self.set_status(TransportStatus::Playing, &mut effects);
                }
                assert(effect_views(effects@) == sink_opened(e, r).effects);
            },
            Phase::ReopenSink { fmt, frames, end_of_stream } => {
                self.sink_format = Some(fmt);
                self.sink_container = Some(c);
                push_effect(&mut effects, Effect::RefreshChain);
                self.phase = Phase::Writing { frames, end_of_stream };
            },
            other => {
                self.phase = other;
            },
        }
        effects
    }

    /// The sink has been halted, or failed.
    pub fn on_sink_paused(&mut self, r: Result<(), AudioError>) -> (effects: Vec<Effect>)
        requires
            engine_wf(old(self)@),
            old(self)@.phase is Pausing,
        ensures
            final(self)@ == sink_paused(old(self)@, r).engine,
            effect_views(effects@) == sink_paused(old(self)@, r).effects,
            engine_wf(final(self)@),
            followed(old(self)@, sink_paused(old(self)@, r)),
    {
        let mut effects: Vec<Effect> = Vec::new();
        assert(effect_views(effects@) == Seq::<EffectView>::empty());
        self.phase = Phase::Ready;
        match r {
            Ok(()) => {
                proof {
                    lemma_status_followed(self@, TransportStatus::Paused, 0);
                }
                self.set_status(TransportStatus::Paused, &mut effects);
            },
            Err(err) => {
                proof {
                    lemma_sink_failed(self@, err);
                    lemma_failed_in_order(self@, err);
                }
                self.sink_failed(&err, &mut effects);
            },
        }
        effects
    }

    /// The sink goes on, or failed.
    pub fn on_sink_resumed(&mut self, r: Result<(), AudioError>, delay: u64) -> (effects: Vec<
        Effect,
    >)
        requires
            engine_wf(old(self)@),
            old(self)@.phase is Resuming,
        ensures
            final(self)@ == sink_resumed(old(self)@, r, delay).engine,
            effect_views(effects@) == sink_resumed(old(self)@, r, delay).effects,
            engine_wf(final(self)@),
            followed(old(self)@, sink_resumed(old(self)@, r, delay)),
    {
        let mut effects: Vec<Effect> = Vec::new();
        assert(effect_views(effects@) == Seq::<EffectView>::empty());
        self.phase = Phase::Ready;
        match r {
            Ok(()) => {
                proof {
                    lemma_status_followed(self@, TransportStatus::Playing, delay);
                }
                self.set_status(TransportStatus::Playing, &mut effects);
                self.emit_position(delay, &mut effects);
            },
            Err(err) => {
                proof {
                    lemma_sink_failed(self@, err);
                    lemma_failed_in_order(self@, err);
                }
                self.sink_failed(&err, &mut effects);
            },
        }
        effects
    }

    /// The source has been moved to a position, given in frames from the start
    /// of the track, or could not be.
    pub fn on_seeked(&mut self, frames: Option<u64>) -> (effects: Vec<Effect>)
        requires
            engine_wf(old(self)@),
            old(self)@.phase is Seeking,
        ensures
            final(self)@ == source_seeked(old(self)@, frames).engine,
            effect_views(effects@) == source_seeked(old(self)@, frames).effects,
            engine_wf(final(self)@),
            followed(old(self)@, source_seeked(old(self)@, frames)),
    {
        match frames {
            Some(n) => {
                self.pos_frames = n;
                self.phase = Phase::SeekDiscard;
            },
            None => {
                self.phase = Phase::Ready;
            },
        }
        let effects: Vec<Effect> = Vec::new();
        assert(effect_views(effects@) == Seq::<EffectView>::empty());
        effects
    }

    /// The sink is rid of what was queued before the seek, or failed.
    pub fn on_sink_discarded(&mut self, r: Result<(), AudioError>, delay: u64) -> (effects: Vec<
        Effect,
    >)
        requires
            engine_wf(old(self)@),
            old(self)@.phase is SeekDiscard,
        ensures
            final(self)@ == sink_discarded(old(self)@, r, delay).engine,
            effect_views(effects@) == sink_discarded(old(self)@, r, delay).effects,
            engine_wf(final(self)@),
            followed(old(self)@, sink_discarded(old(self)@, r, delay)),
    {
        let mut effects: Vec<Effect> = Vec::new();
        assert(effect_views(effects@) == Seq::<EffectView>::empty());
        self.phase = Phase::Ready;
        match r {
            Ok(()) => {
                proof {
                    lemma_status_followed(self@, self.status, delay);
                }
                self.emit_position(delay, &mut effects);
            },
            Err(err) => {
                proof {
                    lemma_sink_failed(self@, err);
                    lemma_failed_in_order(self@, err);
                }
                self.sink_failed(&err, &mut effects);
            },
        }
        effects
    }

    /// The sink took the samples, or failed.
    pub fn on_written(&mut self, r: Result<(), AudioError>) -> (effects: Vec<Effect>)
        requires
            engine_wf(old(self)@),
            old(self)@.phase is Writing,
        ensures
            final(self)@ == write_answered(old(self)@, r).engine,
            effect_views(effects@) == write_answered(old(self)@, r).effects,
            engine_wf(final(self)@),
            followed(old(self)@, write_answered(old(self)@, r)),
    {
        let mut effects: Vec<Effect> = Vec::new();
        assert(effect_views(effects@) == Seq::<EffectView>::empty());
        if let Phase::Writing { frames, end_of_stream } = self.phase {
            proof {
                lemma_written_in_order(self@, frames, end_of_stream, r);
                lemma_written_followed(self@, frames, end_of_stream, r);
            }
            match r {
                Err(err) => self.sink_failed(&err, &mut effects),
                Ok(()) => {
                    self.pos_frames = self.pos_frames.saturating_add(frames);
                    self.phase = Phase::Ready;
                    if end_of_stream {
                        self.transition(&mut effects);
                    }
                },
            }
        }
        effects
    }

    /// So much time has passed since the position was last reported.
    pub fn tick(&mut self, elapsed_ms: u64, delay: u64) -> (effects: Vec<Effect>)
        requires
            engine_wf(old(self)@),
            old(self)@.phase is Ready,
        ensures
            engine_wf(final(self)@),
            elapsed_ms >= POSITION_EVERY_MS ==> final(self)@ == position_reported(
                old(self)@,
                delay,
            ).engine && effect_views(effects@) == position_reported(old(self)@, delay).effects,
            elapsed_ms < POSITION_EVERY_MS ==> final(self)@ == old(self)@ && effect_views(effects@)
                == Seq::<EffectView>::empty(),
            effects@.len() == (if elapsed_ms >= 250 {
                1int
            } else {
                0
            }),
    {
        let mut effects: Vec<Effect> = Vec::new();
        assert(effect_views(effects@) == Seq::<EffectView>::empty());
        if elapsed_ms >= POSITION_EVERY_MS {
            self.emit_position(delay, &mut effects);
        }
        effects
    }

    /// Recomputes the chain, given whether the current gain stage is unity.
    pub fn refresh_chain(&mut self, unity: bool)
        requires
            engine_wf(old(self)@),
        ensures
            final(self)@ == chain_refreshed(old(self)@, unity),
            engine_wf(final(self)@),
    {
        let fmt = match self.sink_format {
            Some(f) => Some(f),
            None => self.shared.chain.format,
        };
        let container = match self.sink_container {
            Some(c) => Some(c),
            None => self.shared.chain.container,
        };
        self.shared.chain = chain_of(&self.device, fmt, container, &self.gain, unity);
        self.shared.gain = self.gain;
    }
}

} // verus!
