//! What a listener may rely on, step by step: each promise is stated over what
//! goes into a step and what comes out of it.

use vstd::prelude::*;

use crate::audio::device::{
    card_head, cards, chosen, device_list, hw_device, kind_of, null_device, pcm_line, pcm_order,
    pcms, virtual_device, DeviceKind, DeviceView,
};
use crate::audio::error::AudioError;
use crate::audio::fmt::{container_named, first_supported, preferences, Container, PcmFormat};
use crate::audio::gain::{preamp_bits, GainStage, TrackOpts};
use crate::audio::http::{body_plan, spool_base, BodyPlan};
use crate::audio::icy::{icy_byte, icy_start, IcyState};
use crate::audio::player::{
    chain, chain_refreshed, commanded, decoded, opened, position_ms, sink_discarded, sink_failed,
    sink_opened, sink_paused, sink_resumed, source_seeked, transitioned, turned, written,
    EffectView, EndReason, EngineCommand, EngineView, EventView, NextView, Opened, PhaseView,
    Pumped, Purpose, TransportStatus,
};
use crate::audio::sink::{file_spec, listed};
use crate::audio::stream::{ascii_alphanumeric, content_depth, is_extension, last_of, SampleType};
use crate::paths::joined;
use crate::text::{
    contains, cut_once, dec, lower_all, read_unsigned, rfind_to, starts_with, trim, trim_start,
};

verus! {

/// At the end of the last track what is still queued in the device is heard:
/// the device is drained, then closed, and nothing is thrown away.
pub proof fn the_last_track_plays_out<S>(e: EngineView<S>, format: Option<PcmFormat>)
    requires
        e.current is Some,
        e.next is None,
    ensures
        ({
            let o = decoded(e, Ok(Pumped { format, samples: 0, end_of_stream: true }));
            &&& o.effects == seq![
                EffectView::Publish(
                    EventView::TrackEnded { uri: e.current->0.uri, reason: EndReason::Finished },
                ),
                EffectView::DrainSink,
                EffectView::CloseSink,
                EffectView::Publish(EventView::Status { status: TransportStatus::Stopped }),
            ]
            &&& !o.effects.contains(EffectView::DiscardSink)
            &&& o.engine.status == TransportStatus::Stopped
            &&& o.engine.shared.status == TransportStatus::Stopped
            &&& o.engine.current is None
            &&& o.engine.next is None
            &&& o.engine.sink_format is None
            &&& o.engine.pos_frames == 0
        }),
{
    let o = decoded(e, Ok(Pumped { format, samples: 0, end_of_stream: true }));
    assert(o.effects == seq![
        EffectView::Publish(
            EventView::TrackEnded { uri: e.current->0.uri, reason: EndReason::Finished },
        ),
        EffectView::DrainSink,
        EffectView::CloseSink,
        EffectView::Publish(EventView::Status { status: TransportStatus::Stopped }),
    ]);
}

/// The same where the last samples and the end of the stream come together:
/// they are written, and then play out.
pub proof fn the_last_samples_play_out<S>(e: EngineView<S>, frames: u64)
    requires
        e.current is Some,
        e.next is None,
    ensures
        ({
            let o = written(e, frames, true, Ok(()));
            &&& o.effects == seq![
                EffectView::Publish(
                    EventView::TrackEnded { uri: e.current->0.uri, reason: EndReason::Finished },
                ),
                EffectView::DrainSink,
                EffectView::CloseSink,
                EffectView::Publish(EventView::Status { status: TransportStatus::Stopped }),
            ]
            &&& !o.effects.contains(EffectView::DiscardSink)
            &&& o.engine.status == TransportStatus::Stopped
            &&& o.engine.current is None
        }),
{
    let o = written(e, frames, true, Ok(()));
    assert(o.effects == seq![
        EffectView::Publish(
            EventView::TrackEnded { uri: e.current->0.uri, reason: EndReason::Finished },
        ),
        EffectView::DrainSink,
        EffectView::CloseSink,
        EffectView::Publish(EventView::Status { status: TransportStatus::Stopped }),
    ]);
}

/// Stop is heard at once: what is queued in the device is thrown away, the
/// device is released, and nothing is left to play.
pub proof fn stop_cuts_off<S>(e: EngineView<S>, delay: u64)
    requires
        e.current is Some,
    ensures
        ({
            let o = commanded(e, EngineCommand::Stop, delay);
            &&& o.effects == seq![
                EffectView::Publish(
                    EventView::TrackEnded { uri: e.current->0.uri, reason: EndReason::Stopped },
                ),
                EffectView::DiscardSink,
                EffectView::CloseSink,
                EffectView::Publish(EventView::Status { status: TransportStatus::Stopped }),
            ]
            &&& !o.effects.contains(EffectView::DrainSink)
            &&& o.engine.status == TransportStatus::Stopped
            &&& o.engine.shared.status == TransportStatus::Stopped
            &&& o.engine.current is None
            &&& o.engine.next is None
            &&& o.engine.sink_format is None
            &&& o.engine.phase is Ready
            &&& o.engine.pos_frames == 0
            &&& o.engine.shared.track_uri is None
            &&& o.engine.shared.next_uri is None
            &&& o.engine.shared.pos_ms == 0
            &&& o.engine.shared.dur_ms is None
            &&& !o.engine.shared.seekable
            &&& o.engine.shared.stream_title is None
            &&& o.engine.gain == e.gain
            &&& o.engine.device == e.device
        }),
{
    let o = commanded(e, EngineCommand::Stop, delay);
    assert(o.effects == seq![
        EffectView::Publish(
            EventView::TrackEnded { uri: e.current->0.uri, reason: EndReason::Stopped },
        ),
        EffectView::DiscardSink,
        EffectView::CloseSink,
        EffectView::Publish(EventView::Status { status: TransportStatus::Stopped }),
    ]);
}

/// A load ends the current track as replaced, forgets what was to follow, and
/// opens exactly the track that was asked for.
pub proof fn a_load_replaces<S>(e: EngineView<S>, uri: String, opts: TrackOpts, delay: u64)
    ensures
        ({
            let o = commanded(e, EngineCommand::Load { uri, opts }, delay);
            &&& o.engine.phase == (PhaseView::<S>::OpenTrack {
                uri: uri@,
                opts,
                purpose: Purpose::Load,
            })
            &&& o.engine.current is None
            &&& o.engine.next is None
            &&& o.engine.shared.next_uri is None
            &&& o.engine.gain == e.gain
            &&& match e.current {
                Some(t) => o.effects == seq![
                    EffectView::Publish(
                        EventView::TrackEnded { uri: t.uri, reason: EndReason::Replaced },
                    ),
                ],
                None => o.effects.len() == 0,
            }
        }),
{
}

/// A loaded track drops what was queued, gets a sink at exactly its own format,
/// and plays from its start with its own gain once the sink is open.
pub proof fn a_loaded_track_plays<S>(
    e: EngineView<S>,
    uri: Seq<char>,
    opts: TrackOpts,
    t: crate::audio::player::Track<S>,
    fmt: PcmFormat,
    c: Container,
)
    requires
        t.format == Some(fmt),
    ensures
        ({
            let a = opened(e, uri, opts, Purpose::Load, Opened::Ready(t));
            let b = sink_opened(a.engine, Ok(c));
            &&& a.effects == seq![EffectView::DiscardSink, EffectView::CloseSink]
            &&& a.engine.sink_format is None
            &&& b.engine.current == Some(t@)
            &&& b.engine.sink_format == Some(fmt)
            &&& b.engine.sink_container == Some(c)
            &&& b.engine.status == TransportStatus::Playing
            &&& b.engine.shared.status == TransportStatus::Playing
            &&& b.engine.phase is Ready
            &&& b.engine.pos_frames == 0
            &&& b.engine.gain == (GainStage { track: opts, ..e.gain })
            &&& b.engine.next == e.next
            &&& b.engine.shared.track_uri == Some(t.uri@)
            &&& b.engine.shared.dur_ms == t.duration_ms
            &&& b.engine.shared.seekable == t.seekable
            &&& b.engine.shared.pos_ms == 0
            &&& b.engine.shared.stream_title is None
            &&& b.effects == seq![
                EffectView::RefreshChain,
                EffectView::Publish(
                    EventView::TrackStarted { uri: t.uri@, format: Some(fmt) },
                ),
                EffectView::Publish(EventView::Status { status: TransportStatus::Playing }),
            ]
        }),
{
    let a = opened(e, uri, opts, Purpose::Load, Opened::Ready(t));
    let b = sink_opened(a.engine, Ok(c));
    assert(a.effects == seq![EffectView::DiscardSink, EffectView::CloseSink]);
    assert(b.effects == seq![
        EffectView::RefreshChain,
        EffectView::Publish(EventView::TrackStarted { uri: t.uri@, format: Some(fmt) }),
        EffectView::Publish(EventView::Status { status: TransportStatus::Playing }),
    ]);
}

/// A track that cannot be opened to play now stops the engine and says why; one
/// that was only to be opened ahead disturbs nothing.
pub proof fn a_track_that_fails_to_open<S>(
    e: EngineView<S>,
    uri: Seq<char>,
    opts: TrackOpts,
    purpose: Purpose,
    err: AudioError,
)
    ensures
        ({
            let o = opened(e, uri, opts, purpose, Opened::Failed(err));
            &&& o.effects.len() > 0
            &&& o.effects[0] == EffectView::Publish(
                EventView::Error { message: uri + ": "@ + err.text() },
            )
            &&& if purpose == Purpose::Preload {
                &&& o.effects.len() == 1
                &&& o.engine == (EngineView { phase: PhaseView::Ready, ..e })
            } else {
                &&& o.engine.status == TransportStatus::Stopped
                &&& o.engine.current is None
                &&& o.engine.sink_format is None
                &&& o.effects.contains(EffectView::CloseSink)
                &&& o.effects.contains(EffectView::DrainSink) <==> purpose == Purpose::Transition
                &&& o.effects.contains(EffectView::DiscardSink) <==> purpose == Purpose::Load
            }
        }),
{
    let o = opened(e, uri, opts, purpose, Opened::Failed(err));
    if purpose != Purpose::Preload {
        assert(o.effects[2] == EffectView::CloseSink);
        assert(o.effects[1] == EffectView::DrainSink || o.effects[1] == EffectView::DiscardSink);
        assert(o.effects.len() == 4);
    }
}

/// A track that was opened in time waits, with its own gain, and the current one
/// plays on.
pub proof fn a_track_opened_ahead_waits<S>(
    e: EngineView<S>,
    uri: Seq<char>,
    opts: TrackOpts,
    t: crate::audio::player::Track<S>,
)
    ensures
        ({
            let o = opened(e, uri, opts, Purpose::Preload, Opened::Ready(t));
            &&& o.effects.len() == 0
            &&& o.engine == (EngineView {
                phase: PhaseView::Ready,
                next: Some((NextView::Open(t@), opts)),
                ..e
            })
        }),
{
}

/// What is enqueued while a track plays follows it, and disturbs nothing; an
/// empty URI takes it away; with nothing current it plays at once.
pub proof fn an_enqueued_track_waits<S>(e: EngineView<S>, uri: String, opts: TrackOpts, delay: u64)
    ensures
        ({
            let o = commanded(e, EngineCommand::EnqueueNext { uri, opts }, delay);
            if uri@.len() == 0 {
                &&& o.effects.len() == 0
                &&& o.engine.next is None
                &&& o.engine.shared.next_uri is None
                &&& o.engine.current == e.current
                &&& o.engine.status == e.status
                &&& o.engine.phase == e.phase
            } else if e.current is Some {
                &&& o.effects.len() == 0
                &&& o.engine.next == Some((NextView::<S>::Pending(uri@), opts))
                &&& o.engine.shared.next_uri == Some(uri@)
                &&& o.engine.current == e.current
                &&& o.engine.status == e.status
                &&& o.engine.phase == e.phase
                &&& o.engine.sink_format == e.sink_format
                &&& o.engine.pos_frames == e.pos_frames
            } else {
                o == commanded(e, EngineCommand::Load { uri, opts }, delay)
            }
        }),
{
}

/// A pause keeps the track and its place, and so does going on; neither does
/// anything in any other state.
pub proof fn a_pause_keeps_the_place<S>(e: EngineView<S>, delay: u64, later: u64)
    requires
        e.status == TransportStatus::Playing,
        e.phase is Ready,
    ensures
        ({
            let asked = commanded(e, EngineCommand::Pause, delay);
            let paused = sink_paused(asked.engine, Ok(()));
            let asked_on = commanded(paused.engine, EngineCommand::Resume, later);
            let on = sink_resumed(asked_on.engine, Ok(()), later);
            &&& asked.engine.phase is Pausing
            &&& paused.engine.status == TransportStatus::Paused
            &&& paused.engine.shared.status == TransportStatus::Paused
            &&& paused.engine.phase is Ready
            &&& paused.effects == seq![
                EffectView::Publish(EventView::Status { status: TransportStatus::Paused }),
            ]
            &&& asked_on.engine.phase is Resuming
            &&& on.engine.status == TransportStatus::Playing
            &&& on.engine.shared.status == TransportStatus::Playing
            &&& on.engine.phase is Ready
            &&& on.effects.len() == 2
            &&& on.effects[0] == EffectView::Publish(
                EventView::Status { status: TransportStatus::Playing },
            )
            &&& paused.engine.current == e.current && on.engine.current == e.current
            &&& paused.engine.next == e.next && on.engine.next == e.next
            &&& paused.engine.pos_frames == e.pos_frames && on.engine.pos_frames == e.pos_frames
            &&& paused.engine.sink_format == e.sink_format && on.engine.sink_format
                == e.sink_format
            &&& paused.engine.gain == e.gain && on.engine.gain == e.gain
        }),
{
}

/// Pausing what does not play, and resuming what is not paused, change nothing.
pub proof fn idle_commands_change_nothing<S>(e: EngineView<S>, delay: u64)
    ensures
        e.status != TransportStatus::Playing ==> commanded(e, EngineCommand::Pause, delay).engine
            == e && commanded(e, EngineCommand::Pause, delay).effects.len() == 0,
        e.status != TransportStatus::Paused ==> commanded(e, EngineCommand::Resume, delay).engine
            == e && commanded(e, EngineCommand::Resume, delay).effects.len() == 0,
{
}

/// A seek moves the source to the position, throws away what was queued, and
/// keeps the track; a track that cannot be sought is left alone.
pub proof fn a_seek_moves_the_track<S>(e: EngineView<S>, ms: u64, n: u64, delay: u64)
    requires
        e.current is Some,
    ensures
        ({
            let asked = commanded(e, EngineCommand::Seek { ms }, delay);
            let moved = source_seeked(asked.engine, Some(n));
            let done = sink_discarded(moved.engine, Ok(()), delay);
            if e.current->0.seekable {
                &&& asked.engine == (EngineView { phase: PhaseView::<S>::Seeking { ms }, ..e })
                &&& asked.effects.len() == 0
                &&& moved.engine == (EngineView {
                    pos_frames: n,
                    phase: PhaseView::SeekDiscard,
                    ..e
                })
                &&& moved.effects.len() == 0
                &&& done.engine.pos_frames == n
                &&& done.engine.current == e.current
                &&& done.engine.status == e.status
                &&& done.engine.phase is Ready
                &&& done.effects == seq![
                    EffectView::Publish(
                        EventView::Position {
                            pos_ms: done.engine.shared.pos_ms,
                            dur_ms: e.shared.dur_ms,
                        },
                    ),
                ]
                &&& source_seeked(asked.engine, None).engine == (EngineView {
                    phase: PhaseView::Ready,
                    ..e
                })
            } else {
                asked.engine == e && asked.effects.len() == 0
            }
        }),
{
}

/// The volume is what was asked for, up to a hundred; muting and the preamp
/// touch nothing else; each is shown in the chain.
pub proof fn gain_commands_touch_the_gain_alone<S>(
    e: EngineView<S>,
    percent: u32,
    muted: bool,
    delay: u64,
)
    ensures
        ({
            let v = commanded(e, EngineCommand::SetVolume { percent }, delay);
            let m = commanded(e, EngineCommand::SetMute { muted }, delay);
            &&& v.engine.gain.volume <= 100
            &&& percent <= 100 ==> v.engine.gain.volume == percent
            &&& percent > 100 ==> v.engine.gain.volume == 100
            &&& v.engine == (EngineView {
                gain: GainStage { volume: v.engine.gain.volume, ..e.gain },
                ..e
            })
            &&& v.effects == seq![EffectView::RefreshChain]
            &&& m.engine == (EngineView { gain: GainStage { muted, ..e.gain }, ..e })
            &&& m.effects == seq![EffectView::RefreshChain]
        }),
{
}

/// The preamp touches nothing but the preamp.
pub proof fn the_preamp_touches_itself_alone<S>(e: EngineView<S>, db: u32, delay: u64)
    ensures
        ({
            let g = commanded(e, EngineCommand::SetGain { db }, delay);
            &&& g.engine == (EngineView {
                gain: GainStage { preamp_db: g.engine.gain.preamp_db, ..e.gain },
                ..e
            })
            &&& g.effects == seq![EffectView::RefreshChain]
        }),
{
}

/// The next track is opened when eight seconds or less of the current one are
/// left, and not before; until then, and where nothing follows, the current one
/// is decoded.
pub proof fn the_next_track_is_opened_in_time<S>(
    e: EngineView<S>,
    uri: Seq<char>,
    opts: TrackOpts,
    dur: u64,
    f: PcmFormat,
)
    requires
        e.current matches Some(t) && t.duration_ms == Some(dur) && t.format == Some(f),
        f.sample_rate > 0,
        e.next == Some((NextView::<S>::Pending(uri), opts)),
    ensures
        ({
            let o = turned(e, None);
            let played_ms = e.pos_frames * 1000 / f.sample_rate as int;
            &&& o.effects.len() == 0
            &&& o.engine.current == e.current
            &&& dur - played_ms <= 8000 ==> o.engine.phase == (PhaseView::<S>::OpenTrack {
                uri,
                opts,
                purpose: Purpose::Preload,
            })
            &&& dur - played_ms > 8000 ==> o.engine.phase is Pumping && o.engine.next == e.next
        }),
{
}

/// While a track plays and nothing waits to be opened, it is decoded further.
pub proof fn a_playing_track_is_decoded<S>(e: EngineView<S>, title: Option<Seq<char>>)
    requires
        e.current is Some,
        !(e.next matches Some((NextView::Pending(_), _))),
    ensures
        ({
            let o = turned(e, title);
            &&& o.engine.phase is Pumping
            &&& o.engine.current == e.current
            &&& o.engine.next == e.next
            &&& o.engine.status == e.status
            &&& match title {
                Some(t) => o.engine.shared.stream_title == Some(t) && o.effects == seq![
                    EffectView::Publish(EventView::StreamTitle { title: t }),
                ],
                None => o.engine.shared == e.shared && o.effects.len() == 0,
            }
        }),
{
}

/// Decoded samples are written to a sink that runs at exactly their format, all
/// whole frames of them. Where it does not, queued audio plays out and the sink
/// is opened again at that format first.
pub proof fn samples_go_to_a_sink_of_their_format<S>(
    e: EngineView<S>,
    fmt: PcmFormat,
    samples: u64,
    end_of_stream: bool,
    c: Container,
)
    requires
        e.current is Some,
        samples > 0,
        fmt.channels > 0,
    ensures
        ({
            let o = decoded(e, Ok(Pumped { format: Some(fmt), samples, end_of_stream }));
            let frames = (samples as int / fmt.channels as int) as u64;
            &&& o.engine.current matches Some(t) && t.uri == e.current->0.uri && t.format == Some(
                fmt,
            )
            &&& if e.sink_format == Some(fmt) {
                &&& o.effects.len() == 0
                &&& o.engine.phase == (PhaseView::<S>::Writing { frames, end_of_stream })
                &&& o.engine.sink_format == e.sink_format
            } else {
                let again = sink_opened(o.engine, Ok(c));
                &&& o.effects == seq![EffectView::DrainSink, EffectView::CloseSink]
                &&& again.engine.sink_format == Some(fmt)
                &&& again.engine.sink_container == Some(c)
                &&& again.engine.phase == (PhaseView::<S>::Writing { frames, end_of_stream })
                &&& again.engine.pos_frames == e.pos_frames
                &&& again.effects == seq![EffectView::RefreshChain]
            }
        }),
{
}

/// Written frames are counted, and the track plays on.
pub proof fn written_frames_are_counted<S>(e: EngineView<S>, frames: u64)
    requires
        e.pos_frames + frames <= u64::MAX,
    ensures
        ({
            let o = written(e, frames, false, Ok(()));
            &&& o.engine.pos_frames == e.pos_frames + frames
            &&& o.engine.current == e.current
            &&& o.engine.next == e.next
            &&& o.engine.status == e.status
            &&& o.engine.sink_format == e.sink_format
            &&& o.engine.phase is Ready
            &&& o.effects.len() == 0
        }),
{
}

/// A track that cannot be decoded further ends with an error, which is told,
/// and playback stops at once.
pub proof fn a_broken_track_ends<S>(e: EngineView<S>, err: AudioError)
    requires
        e.current is Some,
    ensures
        ({
            let o = decoded(e, Err(err));
            &&& o.effects == seq![
                EffectView::Publish(
                    EventView::Error { message: e.current->0.uri + ": "@ + err.text() },
                ),
                EffectView::Publish(
                    EventView::TrackEnded { uri: e.current->0.uri, reason: EndReason::Error },
                ),
                EffectView::DiscardSink,
                EffectView::CloseSink,
                EffectView::Publish(EventView::Status { status: TransportStatus::Stopped }),
            ]
            &&& o.engine.status == TransportStatus::Stopped
            &&& o.engine.current is None
        }),
{
    let o = decoded(e, Err(err));
    assert(o.effects == seq![
        EffectView::Publish(EventView::Error { message: e.current->0.uri + ": "@ + err.text() }),
        EffectView::Publish(
            EventView::TrackEnded { uri: e.current->0.uri, reason: EndReason::Error },
        ),
        EffectView::DiscardSink,
        EffectView::CloseSink,
        EffectView::Publish(EventView::Status { status: TransportStatus::Stopped }),
    ]);
}

/// A device that fails while it is written to, paused, resumed or emptied stops
/// playback: the error comes first, the track ends with it, nothing follows, and
/// the device is let go before anything is thrown away.
pub proof fn a_failing_device_stops_playback<S>(
    e: EngineView<S>,
    err: AudioError,
    frames: u64,
    end_of_stream: bool,
    delay: u64,
)
    requires
        e.current is Some,
    ensures
        ({
            let o = sink_failed(e, err);
            let message = if err is DeviceGone {
                err.text() + "; playback stopped"@
            } else {
                "audio output error: "@ + err.text()
            };
            &&& o.effects == seq![
                EffectView::Publish(EventView::Error { message }),
                EffectView::Publish(
                    EventView::TrackEnded { uri: e.current->0.uri, reason: EndReason::Error },
                ),
                EffectView::CloseSink,
                EffectView::DiscardSink,
                EffectView::CloseSink,
                EffectView::Publish(EventView::Status { status: TransportStatus::Stopped }),
            ]
            &&& o.engine.status == TransportStatus::Stopped
            &&& o.engine.current is None
            &&& o.engine.next is None
            &&& o.engine.sink_format is None
            &&& written(e, frames, end_of_stream, Err(err)).effects == o.effects
            &&& written(e, frames, end_of_stream, Err(err)).engine.status
                == TransportStatus::Stopped
            &&& sink_paused(e, Err(err)).effects == o.effects
            &&& sink_resumed(e, Err(err), delay).effects == o.effects
            &&& sink_discarded(e, Err(err), delay).effects == o.effects
        }),
{
    let o = sink_failed(e, err);
    let message = if err is DeviceGone {
        err.text() + "; playback stopped"@
    } else {
        "audio output error: "@ + err.text()
    };
    assert(o.effects == seq![
        EffectView::Publish(EventView::Error { message }),
        EffectView::Publish(
            EventView::TrackEnded { uri: e.current->0.uri, reason: EndReason::Error },
        ),
        EffectView::CloseSink,
        EffectView::DiscardSink,
        EffectView::CloseSink,
        EffectView::Publish(EventView::Status { status: TransportStatus::Stopped }),
    ]);
}

/// A device that refuses a format stops playback with its name and its reason,
/// and what was to play never starts.
pub proof fn a_refused_format_is_told<S>(
    e: EngineView<S>,
    fmt: PcmFormat,
    t: crate::audio::player::TrackView<S>,
    opts: TrackOpts,
    purpose: Purpose,
    err: AudioError,
)
    requires
        e.phase == (PhaseView::OpenSink { fmt, track: t, opts, purpose }),
        e.current is None,
    ensures
        ({
            let o = sink_opened(e, Err(err));
            &&& o.effects == seq![
                EffectView::Publish(
                    EventView::Error { message: e.device.name + ": "@ + err.text() },
                ),
                EffectView::DiscardSink,
                EffectView::CloseSink,
                EffectView::Publish(EventView::Status { status: TransportStatus::Stopped }),
            ]
            &&& o.engine.status == TransportStatus::Stopped
            &&& o.engine.current is None
        }),
{
    let o = sink_opened(e, Err(err));
    assert(o.effects == seq![
        EffectView::Publish(EventView::Error { message: e.device.name + ": "@ + err.text() }),
        EffectView::DiscardSink,
        EffectView::CloseSink,
        EffectView::Publish(EventView::Status { status: TransportStatus::Stopped }),
    ]);
}

/// A track that follows another starts without a change of the status, whether
/// it was opened in time or is opened now.
pub proof fn the_next_track_follows<S>(e: EngineView<S>, uri: Seq<char>, opts: TrackOpts)
    requires
        e.current is Some,
        e.next == Some((NextView::<S>::Pending(uri), opts)),
    ensures
        ({
            let o = transitioned(e);
            &&& o.engine.phase == (PhaseView::<S>::OpenTrack {
                uri,
                opts,
                purpose: Purpose::Transition,
            })
            &&& o.engine.status == e.status
            &&& o.engine.next is None
            &&& o.engine.shared.next_uri is None
            &&& o.engine.sink_format == e.sink_format
            &&& o.effects == seq![
                EffectView::Publish(
                    EventView::TrackEnded { uri: e.current->0.uri, reason: EndReason::Finished },
                ),
            ]
        }),
{
}

/// The position is the time of the frames that have been heard: what was
/// written less what still waits, rounded down to a millisecond.
pub proof fn the_position_is_what_was_heard<S>(e: EngineView<S>, f: PcmFormat, delay: u64)
    requires
        e.sink_format == Some(f),
        f.sample_rate >= 1000,
    ensures
        e.pos_frames <= delay ==> position_ms(e, delay) == 0,
        e.pos_frames >= delay ==> position_ms(e, delay) * f.sample_rate <= (e.pos_frames - delay)
            * 1000 < (position_ms(e, delay) + 1) * f.sample_rate,
{
    let rate = f.sample_rate as int;
    let heard = if e.pos_frames >= delay {
        (e.pos_frames - delay) as int
    } else {
        0
    };
    let ms = heard * 1000 / rate;
    assert(ms * rate <= heard * 1000 < (ms + 1) * rate && 0 <= ms <= heard) by (nonlinear_arith)
        requires
            rate >= 1000,
            heard >= 0,
            ms == heard * 1000 / rate,
    ;
    assert(position_ms(e, delay) == ms);
}

/// The chain is called bit-perfect exactly where the gain is unity and the
/// device is not one that mixes or resamples; it names what is really there.
pub proof fn the_chain_is_honest(
    device: DeviceView,
    fmt: Option<PcmFormat>,
    container: Option<Container>,
    gain: GainStage,
    unity: bool,
)
    ensures
        ({
            let c = chain(device, fmt, container, gain, unity);
            &&& c.bit_perfect <==> unity && (device.kind == DeviceKind::Hardware || device.kind
                == DeviceKind::Null || device.kind == DeviceKind::File)
            &&& c.device == device.name
            &&& c.device_kind == device.kind
            &&& c.format == fmt
            &&& c.container == container
            &&& c.volume == gain.volume
        }),
{
}

/// What the chain shows while the sink is open is what the sink is open for.
pub proof fn the_chain_shows_the_sink<S>(e: EngineView<S>, unity: bool)
    ensures
        ({
            let c = chain_refreshed(e, unity);
            &&& e.sink_format is Some ==> c.shared.chain.format == e.sink_format
            &&& e.sink_container is Some ==> c.shared.chain.container == e.sink_container
            &&& e.sink_format is None ==> c.shared.chain.format == e.shared.chain.format
            &&& c.shared.chain.device == e.device.name
            &&& c.shared.chain.volume == e.gain.volume
            &&& c.shared.chain.bit_perfect ==> unity && e.device.kind != DeviceKind::Virtual
            &&& unity && e.device.kind != DeviceKind::Virtual ==> c.shared.chain.bit_perfect
            &&& c.shared.gain == e.gain
            &&& c.current == e.current && c.status == e.status && c.gain == e.gain
        }),
{
}

/// What was opened but cannot be decoded is told by its name, and stops playback
/// unless it was only opened ahead.
pub proof fn an_undecodable_track_is_told<S>(
    e: EngineView<S>,
    uri: Seq<char>,
    opts: TrackOpts,
    purpose: Purpose,
)
    ensures
        ({
            let o = opened(e, uri, opts, purpose, Opened::Undecodable);
            &&& o.effects.len() > 0
            &&& o.effects[0] == EffectView::Publish(
                EventView::Error { message: "cannot decode "@ + uri },
            )
            &&& purpose == Purpose::Preload ==> o.effects.len() == 1 && o.engine == (EngineView {
                phase: PhaseView::Ready,
                ..e
            })
            &&& purpose != Purpose::Preload ==> o.effects.len() == 4 && o.engine.status
                == TransportStatus::Stopped && o.engine.current is None
        }),
{
}

/// A sink that cannot be opened again for a stream that changed its format ends
/// the track with the device's reason.
pub proof fn a_refused_change_ends_the_track<S>(
    e: EngineView<S>,
    fmt: PcmFormat,
    frames: u64,
    end_of_stream: bool,
    err: AudioError,
)
    requires
        e.phase == (PhaseView::<S>::ReopenSink { fmt, frames, end_of_stream }),
        e.current is Some,
    ensures
        ({
            let o = sink_opened(e, Err(err));
            &&& o.effects == seq![
                EffectView::Publish(
                    EventView::Error { message: e.device.name + ": "@ + err.text() },
                ),
                EffectView::Publish(
                    EventView::TrackEnded { uri: e.current->0.uri, reason: EndReason::Error },
                ),
                EffectView::DiscardSink,
                EffectView::CloseSink,
                EffectView::Publish(EventView::Status { status: TransportStatus::Stopped }),
            ]
            &&& o.engine.status == TransportStatus::Stopped
            &&& o.engine.current is None
        }),
{
    let o = sink_opened(e, Err(err));
    assert(o.effects == seq![
        EffectView::Publish(EventView::Error { message: e.device.name + ": "@ + err.text() }),
        EffectView::Publish(
            EventView::TrackEnded { uri: e.current->0.uri, reason: EndReason::Error },
        ),
        EffectView::DiscardSink,
        EffectView::CloseSink,
        EffectView::Publish(EventView::Status { status: TransportStatus::Stopped }),
    ]);
}

/// A track whose length or format is not known gets no follower opened ahead.
pub proof fn nothing_is_opened_ahead_of_an_unknown_end<S>(
    e: EngineView<S>,
    title: Option<Seq<char>>,
)
    requires
        e.current matches Some(t) && (t.duration_ms is None || t.format is None),
    ensures
        turned(e, title).engine.phase is Pumping,
        turned(e, title).engine.next == e.next,
{
}

/// A follower that runs at another format than the sink lets what is queued play
/// out, and gets a sink of its own format; the status does not change.
pub proof fn another_format_waits_for_the_queue<S>(
    e: EngineView<S>,
    t: crate::audio::player::TrackView<S>,
    opts: TrackOpts,
    fmt: PcmFormat,
    c: Container,
)
    requires
        e.current is Some,
        e.next == Some((NextView::Open(t), opts)),
        t.format == Some(fmt),
        e.sink_format != Some(fmt),
    ensures
        ({
            let a = transitioned(e);
            let b = sink_opened(a.engine, Ok(c));
            &&& a.effects == seq![
                EffectView::Publish(
                    EventView::TrackEnded { uri: e.current->0.uri, reason: EndReason::Finished },
                ),
                EffectView::DrainSink,
                EffectView::CloseSink,
            ]
            &&& b.engine.sink_format == Some(fmt)
            &&& b.engine.sink_container == Some(c)
            &&& b.engine.current == Some(t)
            &&& b.engine.status == e.status
            &&& b.engine.gain.track == opts
            &&& b.engine.pos_frames == 0
            &&& b.effects == seq![
                EffectView::RefreshChain,
                EffectView::Publish(EventView::TrackStarted { uri: t.uri, format: Some(fmt) }),
            ]
        }),
{
    let a = transitioned(e);
    assert(a.effects == seq![
        EffectView::Publish(
            EventView::TrackEnded { uri: e.current->0.uri, reason: EndReason::Finished },
        ),
        EffectView::DrainSink,
        EffectView::CloseSink,
    ]);
}

/// Without a sink the position goes by the track's own rate.
pub proof fn the_position_goes_by_the_track<S>(e: EngineView<S>, f: PcmFormat, delay: u64)
    requires
        e.sink_format is None,
        e.current matches Some(t) && t.format == Some(f),
        f.sample_rate >= 1000,
        e.pos_frames >= delay,
    ensures
        position_ms(e, delay) * f.sample_rate <= (e.pos_frames - delay) * 1000 < (position_ms(
            e,
            delay,
        ) + 1) * f.sample_rate,
{
    let rate = f.sample_rate as int;
    let heard = e.pos_frames - delay;
    let ms = heard * 1000 / rate;
    assert(ms * rate <= heard * 1000 < (ms + 1) * rate && 0 <= ms <= heard) by (nonlinear_arith)
        requires
            rate >= 1000,
            heard >= 0,
            ms == heard * 1000 / rate,
    ;
    assert(position_ms(e, delay) == ms);
}

// ---------------------------------------------------------------------------
// Formats and devices
// ---------------------------------------------------------------------------

/// A container holds samples of its depth in its width.
pub proof fn containers_have_their_size()
    ensures
        Container::S16.width() == 2 && Container::S16.depth() == 16,
        Container::S24.width() == 4 && Container::S24.depth() == 24,
        Container::S24_3.width() == 3 && Container::S24_3.depth() == 24,
        Container::S32.width() == 4 && Container::S32.depth() == 32,
        Container::S16.name() == "S16_LE"@,
        Container::S24.name() == "S24_LE"@,
        Container::S24_3.name() == "S24_3LE"@,
        Container::S32.name() == "S32_LE"@,
{
}

/// Of the containers that a device takes, the one of the depth of the content is
/// used where there is one; wider ones come after it, and narrower ones never.
pub proof fn the_nearest_container_is_used(bits: u8, supported: Seq<Container>)
    ensures
        ({
            let c = first_supported(preferences(bits), supported);
            let has16 = supported.contains(Container::S16);
            let has24 = supported.contains(Container::S24);
            let packed = supported.contains(Container::S24_3);
            let has32 = supported.contains(Container::S32);
            &&& bits <= 16 && has16 ==> c == Some(Container::S16)
            &&& bits <= 16 && !has16 && has32 ==> c == Some(Container::S32)
            &&& bits <= 16 && !has16 && !has32 && packed ==> c == Some(Container::S24_3)
            &&& bits <= 16 && !has16 && !has32 && !packed && has24 ==> c == Some(Container::S24)
            &&& 16 < bits <= 24 && has24 ==> c == Some(Container::S24)
            &&& 16 < bits <= 24 && !has24 && packed ==> c == Some(Container::S24_3)
            &&& 16 < bits <= 24 && !has24 && !packed && has32 ==> c == Some(Container::S32)
            &&& 24 < bits <= 32 && has32 ==> c == Some(Container::S32)
            &&& bits > 16 && !has24 && !packed && !has32 ==> c is None
            &&& bits > 24 && !has32 ==> c is None
            &&& bits > 32 ==> c is None
        }),
{
    reveal_with_fuel(first_supported, 5);
    let p = preferences(bits);
    if bits <= 16 {
        assert(p.drop_first()[0] == Container::S32);
        assert(p.drop_first().drop_first()[0] == Container::S24_3);
        assert(p.drop_first().drop_first().drop_first()[0] == Container::S24);
    } else if bits <= 24 {
        assert(p.drop_first()[0] == Container::S24_3);
        assert(p.drop_first().drop_first()[0] == Container::S32);
        assert(p.drop_first().drop_first().drop_first().len() == 0);
    } else if bits <= 32 {
        assert(p.drop_first().len() == 0);
    }
}

/// A device is known by its name: the null device, a file, a hardware device of
/// ALSA, and anything else, which may mix or resample.
pub proof fn devices_are_known_by_name(name: Seq<char>)
    ensures
        kind_of("null"@) == DeviceKind::Null,
        starts_with(name, "hw:"@) ==> kind_of(name) == DeviceKind::Hardware,
        starts_with(name, "file:"@) ==> kind_of(name) == DeviceKind::File,
        name != "null"@ && !starts_with(name, "hw:"@) && !starts_with(name, "file:"@) ==> kind_of(
            name,
        ) == DeviceKind::Virtual,
{
    reveal_strlit("null");
    reveal_strlit("hw:");
    reveal_strlit("file:");
    if starts_with(name, "hw:"@) {
        assert(name.subrange(0, 3)[0] == "hw:"@[0]);
        assert("hw:"@[0] == 'h' && "null"@[0] == 'n');
        if starts_with(name, "file:"@) {
            assert(name.subrange(0, 5)[0] == "file:"@[0]);
            assert("file:"@[0] == 'f');
        }
    }
    if starts_with(name, "file:"@) {
        assert("null"@.len() == 4 && "file:"@.len() == 5);
    }
}

/// The list of devices begins with the null device, then has every playback
/// device of the hardware under its ALSA name, by card and number.
pub proof fn hardware_is_listed(
    cards_text: Seq<char>,
    pcms_text: Seq<char>,
    hints: Option<Seq<(String, Option<String>)>>,
    i: int,
)
    requires
        0 <= i < pcms(pcms_text).len(),
    ensures
        ({
            let l = device_list(cards_text, pcms_text, hints);
            let p = pcms(pcms_text)[i];
            &&& l.len() >= 1 + pcms(pcms_text).len()
            &&& l[0].name == "null"@ && l[0].kind == DeviceKind::Null
            &&& l[1 + i].name == "hw:"@ + dec(p.0 as nat) + ","@ + dec(p.1 as nat)
            &&& l[1 + i].kind == DeviceKind::Hardware
            &&& l[1 + i] == hw_device(p, cards(cards_text))
        }),
{
}

/// A hardware device is described by its card and its own name, and carries the
/// long name of the card.
pub proof fn a_device_is_described_by_its_card(
    card: u32,
    dev: u32,
    id: Seq<char>,
    known: Map<u32, (Seq<char>, Seq<char>)>,
)
    ensures
        ({
            let d = hw_device((card, dev, id), known);
            &&& known.contains_key(card) && id.len() > 0 ==> d.description == known[card].0 + ": "@
                + id
            &&& known.contains_key(card) && id.len() == 0 ==> d.description == known[card].0
            &&& known.contains_key(card) ==> d.card_name == Some(known[card].1)
            &&& !known.contains_key(card) ==> d.description == id && d.card_name is None
        }),
{
}

/// Devices go by the number of the card, then by their own.
pub proof fn devices_go_by_number(a: (u32, u32, Seq<char>), b: (u32, u32, Seq<char>))
    ensures
        a.0 < b.0 ==> pcm_order()(a, b) && !pcm_order()(b, a),
        a.0 == b.0 && a.1 < b.1 ==> pcm_order()(a, b) && !pcm_order()(b, a),
{
}

/// The default device is there even where ALSA names none; the sound servers are
/// there where ALSA names them. None of them is passed off as bit-perfect.
pub proof fn sound_servers_are_listed_as_such(name: Seq<char>, fallback: Seq<char>)
    ensures
        ({
            let l = virtual_device(name, fallback, None);
            &&& name == "default"@ ==> l.len() == 1 && l[0].name == name && l[0].description
                == fallback && l[0].kind == DeviceKind::Virtual
            &&& name != "default"@ ==> l.len() == 0
        }),
{
}

/// The error numbers of ALSA that are told apart, and how often in a row an
/// interruption is repaired.
pub proof fn alsa_errors_are_told_apart()
    ensures
        crate::audio::sink::EAGAIN == 11,
        crate::audio::sink::EPIPE == 32,
        crate::audio::sink::ESTRPIPE == 86,
        crate::audio::sink::ENODEV == 19,
        crate::audio::sink::ESHUTDOWN == 108,
        crate::audio::sink::MAX_RECOVERIES == 8,
        crate::audio::http::CHUNK == 65_536,
        crate::audio::http::LIVE_BUFFER == 8_388_608,
        crate::audio::player::POSITION_EVERY_MS == 250,
        crate::audio::player::DEFAULT_RATE == 44_100,
{
}

/// A file device without a list of formats takes them all, and its path is what
/// follows the scheme.
pub proof fn a_file_device_takes_all_formats(path: Seq<char>)
    requires
        rfind_to(path, "?formats="@, path.len() as int) is None,
    ensures
        file_spec("file:"@ + path) == (path, Container::ALL@),
        Container::ALL@.len() == 4,
        Container::ALL@.contains(Container::S16),
        Container::ALL@.contains(Container::S24),
        Container::ALL@.contains(Container::S24_3),
        Container::ALL@.contains(Container::S32),
{
    reveal_strlit("file:");
    let name = "file:"@ + path;
    assert(name.subrange(0, "file:"@.len() as int) == "file:"@);
    assert(name.subrange("file:"@.len() as int, name.len() as int) == path);
    assert(Container::ALL@[0] == Container::S16);
    assert(Container::ALL@[1] == Container::S24);
    assert(Container::ALL@[2] == Container::S24_3);
    assert(Container::ALL@[3] == Container::S32);
}

/// The depth of decoded samples is what the file declares, else that of the
/// sample type, and twenty-four bits for floats.
pub proof fn the_depth_is_the_declared_one(declared: u32, t: SampleType)
    ensures
        1 <= declared <= 32 ==> content_depth(Some(declared), t) == declared,
        content_depth(None, SampleType::S16) == 16,
        content_depth(None, SampleType::U16) == 16,
        content_depth(None, SampleType::S24) == 24,
        content_depth(None, SampleType::U24) == 24,
        content_depth(None, SampleType::S32) == 32,
        content_depth(None, SampleType::U32) == 32,
        content_depth(None, SampleType::S8) == 8,
        content_depth(None, SampleType::U8) == 8,
        content_depth(None, SampleType::F32) == 24,
        content_depth(None, SampleType::F64) == 24,
        32 < declared < 256 ==> content_depth(Some(declared), t) == 32,
{
}

/// A preamp that is not a finite number counts as none; any other is kept.
pub proof fn a_finite_preamp_is_kept(db: u32)
    ensures
        (db / 0x80_0000) % 256 == 255 ==> preamp_bits(db) == 0,
        (db / 0x80_0000) % 256 != 255 ==> preamp_bits(db) == db,
{
}

// ---------------------------------------------------------------------------
// Streams
// ---------------------------------------------------------------------------

/// A body of known length that is sent as it is, without titles in between, is
/// spooled so that it can be sought; anything else is played live.
pub proof fn a_plain_body_is_spooled(metaint: Seq<char>, n: nat, length: Seq<char>, len: nat)
    requires
        read_unsigned(trim(length), u64::MAX as nat) == Some(len),
        len <= u64::MAX,
        read_unsigned(trim(metaint), usize::MAX as nat) == Some(n),
        0 < n <= usize::MAX,
    ensures
        body_plan(None, None, Some(length)) == (BodyPlan::Spool { len: len as u64 }),
        body_plan(None, None, None) == (BodyPlan::Live { metaint: None }),
        body_plan(Some(metaint), None, Some(length)) == (BodyPlan::Live {
            metaint: Some(n as usize),
        }),
        forall|e: Seq<char>| #[trigger]
            lower_all(e) != "identity"@ ==> body_plan(None, Some(e), Some(length)) == (
            BodyPlan::Live { metaint: None }),
        forall|e: Seq<char>| #[trigger]
            lower_all(e) == "identity"@ ==> body_plan(None, Some(e), Some(length)) == (
            BodyPlan::Spool { len: len as u64 }),
{
}

/// Spooled streams go to the cache directory of the user.
pub proof fn spools_go_to_the_cache(cache: Seq<char>, home: Seq<char>)
    ensures
        cache.len() > 0 ==> spool_base(Some(cache), Some(home)) == Some(
            joined(joined(cache, "ricercar"@), "stream"@),
        ),
        spool_base(None, Some(home)) == Some(
            joined(joined(joined(home, ".cache"@), "ricercar"@), "stream"@),
        ),
        spool_base(None, None) is None,
{
}

/// Between two titles a stream is audio, byte for byte; then a byte says how many
/// sixteen bytes of title follow, none for nought.
pub proof fn titles_come_between_the_audio(st: IcyState, b: u8)
    requires
        !st.in_meta,
    ensures
        st.until_meta > 0 ==> icy_byte(st, b).audio == seq![b] && icy_byte(st, b).state.until_meta
            == st.until_meta - 1 && icy_byte(st, b).titles.len() == 0,
        st.until_meta == 0 ==> icy_byte(st, b).audio.len() == 0 && icy_byte(st, b).titles.len()
            == 0,
        st.until_meta == 0 && b > 0 ==> icy_byte(st, b).state.in_meta && icy_byte(
            st,
            b,
        ).state.meta_left == 16 * b,
        st.until_meta == 0 && b == 0 ==> !icy_byte(st, b).state.in_meta && icy_byte(
            st,
            b,
        ).state.until_meta == st.metaint,
        icy_start(st.metaint).until_meta == st.metaint,
        !icy_start(st.metaint).in_meta,
{
}

/// Each failure is told in its own words, with the device that it concerns.
pub proof fn failures_are_told(device: String, detail: String)
    ensures
        (AudioError::FormatRefused { device, detail }).text() == "device '"@ + device@
            + "' cannot play "@ + detail@ + " bit-perfectly"@,
        (AudioError::DeviceGone { device }).text() == "audio device '"@ + device@
            + "' disappeared (unplugged or powered off?)"@,
        AudioError::UnsupportedFormat(device).text() == "device '"@ + device@
            + "' does not support the track format (bit-perfect policy refuses resampling)"@,
        AudioError::Decode(detail).text() == "decode error: "@ + detail@,
        AudioError::UnsupportedSource(detail).text() == "unsupported source: "@ + detail@,
{
}

/// Behind the hardware come the default device and the sound servers, in this
/// order, where they are there.
pub proof fn sound_servers_come_last(
    cards_text: Seq<char>,
    pcms_text: Seq<char>,
    hints: Option<Seq<(String, Option<String>)>>,
)
    ensures
        ({
            let l = device_list(cards_text, pcms_text, hints);
            let n = 1 + pcms(pcms_text).len();
            l.subrange(n as int, l.len() as int) == virtual_device(
                "default"@,
                "ALSA default (may be resampled by PipeWire/Pulse)"@,
                hints,
            ) + virtual_device(
                "pipewire"@,
                "PipeWire (mixed/resampled by the sound server)"@,
                hints,
            ) + virtual_device(
                "pulse"@,
                "PulseAudio (mixed/resampled by the sound server)"@,
                hints,
            )
        }),
{
    let l = device_list(cards_text, pcms_text, hints);
    let n = 1 + pcms(pcms_text).len();
    let rest = virtual_device(
        "default"@,
        "ALSA default (may be resampled by PipeWire/Pulse)"@,
        hints,
    ) + virtual_device("pipewire"@, "PipeWire (mixed/resampled by the sound server)"@, hints)
        + virtual_device("pulse"@, "PulseAudio (mixed/resampled by the sound server)"@, hints);
    assert(l.subrange(n as int, l.len() as int) == rest);
}

/// The ending of a name is a hint at its format where it is short and made of
/// letters and digits.
pub proof fn an_ending_is_a_hint(ext: Seq<char>, c: char)
    ensures
        ascii_alphanumeric(c) <==> ('0' <= c <= '9') || ('a' <= c <= 'z') || ('A' <= c <= 'Z'),
        is_extension(ext) ==> forall|i: int|
            0 <= i < ext.len() ==> ascii_alphanumeric(#[trigger] ext[i]),
        vstd::utf8::encode_utf8(ext).len() > 4 ==> !is_extension(ext),
{
}

/// The ending of a URI stands behind the last dot, before a query or fragment.
pub proof fn the_ending_stands_behind_the_last_dot(s: Seq<char>, a: char, b: char, n: int)
    requires
        0 <= n <= s.len(),
    ensures
        last_of(s, a, b, n) matches Some(i) ==> 0 <= i < n && (s[i] == a || s[i] == b) && forall|
            j: int,
        |
            i < j < n ==> s[j] != a && s[j] != b,
        last_of(s, a, b, n) is None ==> forall|j: int| 0 <= j < n ==> s[j] != a && s[j] != b,
    decreases n,
{
    if n > 0 && s[n - 1] != a && s[n - 1] != b {
        the_ending_stands_behind_the_last_dot(s, a, b, n - 1);
    }
}

/// A list of formats is understood exactly where each of its names is.
pub proof fn a_list_of_formats_is_understood(list: Seq<Seq<char>>)
    ensures
        listed(list) matches Some(c) ==> c.len() == list.len() && forall|i: int|
            0 <= i < c.len() ==> (#[trigger] c[i]).name() == list[i],
        (forall|i: int|
            0 <= i < list.len() ==> container_named(#[trigger] list[i]) is Some) ==> listed(list)
            is Some,
    decreases list.len(),
{
    if list.len() > 0 {
        a_list_of_formats_is_understood(list.drop_last());
        assert forall|i: int| 0 <= i < list.drop_last().len() implies list.drop_last()[i]
            == list[i] by {}
        if listed(list) is Some {
            let c = listed(list)->0;
            assert forall|i: int| 0 <= i < c.len() implies (#[trigger] c[i]).name() == list[i] by {
                if i < list.len() - 1 {
                    assert(c[i] == listed(list.drop_last())->0[i]);
                    assert(list.drop_last()[i] == list[i]);
                }
            }
        }
        if forall|i: int| 0 <= i < list.len() ==> container_named(#[trigger] list[i]) is Some {
            assert forall|i: int| 0 <= i < list.drop_last().len() implies container_named(
                #[trigger] list.drop_last()[i],
            ) is Some by {
                assert(list.drop_last()[i] == list[i]);
            }
            assert(container_named(list.last()) is Some) by {
                assert(list.last() == list[list.len() - 1]);
            }
        }
    }
}

/// A rate or format that the device takes is listed.
pub proof fn what_the_device_takes_is_listed<T>(items: Seq<T>, answers: Seq<bool>, i: int) -> (k:
    int)
    requires
        answers.len() >= items.len(),
        0 <= i < items.len(),
        answers[i],
    ensures
        0 <= k < chosen(items, answers).len(),
        chosen(items, answers)[k] == items[i],
    decreases items.len(),
{
    let front = items.drop_last();
    if i < front.len() {
        let k = what_the_device_takes_is_listed(front, answers, i);
        assert(front[i] == items[i]);
        k
    } else {
        chosen(items, answers).len() - 1
    }
}

/// A rate or format is listed only where the device takes it.
pub proof fn only_what_the_device_takes_is_listed<T>(items: Seq<T>, answers: Seq<bool>, k: int) -> (
    i: int)
    requires
        answers.len() >= items.len(),
        0 <= k < chosen(items, answers).len(),
    ensures
        0 <= i < items.len(),
        answers[i],
        chosen(items, answers)[k] == items[i],
    decreases items.len(),
{
    let front = items.drop_last();
    if items.len() == 0 {
        0
    } else if k < chosen(front, answers).len() {
        let i = only_what_the_device_takes_is_listed(front, answers, k);
        assert(front[i] == items[i]);
        i
    } else {
        items.len() - 1
    }
}

/// A line of the list of PCMs is a device where it can play, with the numbers of
/// the card and the device and the id in front.
pub proof fn a_playback_device_is_read(
    line: Seq<char>,
    ids: Seq<char>,
    rest: Seq<char>,
    c: Seq<char>,
    d: Seq<char>,
    m: nat,
    n: nat,
    id: Seq<char>,
    more: Seq<char>,
)
    requires
        cut_once(line, ": "@) == Some((ids, rest)),
        cut_once(ids, "-"@) == Some((c, d)),
        read_unsigned(trim(c), u32::MAX as nat) == Some(m),
        read_unsigned(trim(d), u32::MAX as nat) == Some(n),
        cut_once(rest, " : "@) == Some((id, more)),
    ensures
        contains(rest, "playback"@) ==> pcm_line(line) == Some((m as u32, n as u32, trim(id))),
        !contains(rest, "playback"@) ==> pcm_line(line) is None,
{
}

/// A card is its number and the name behind the dash.
pub proof fn a_card_is_read(
    line: Seq<char>,
    idx: Seq<char>,
    rest: Seq<char>,
    n: nat,
    x: Seq<char>,
    head: Seq<char>,
    y: Seq<char>,
    name: Seq<char>,
)
    requires
        cut_once(trim_start(line), " "@) == Some((idx, rest)),
        read_unsigned(idx, u32::MAX as nat) == Some(n),
        cut_once(rest, "]: "@) == Some((x, head)),
        cut_once(head, " - "@) == Some((y, name)),
    ensures
        card_head(line) == Some((n as u32, trim(name))),
{
}

/// The null device is offered for what it is.
pub proof fn the_null_device_discards()
    ensures
        null_device().name == "null"@,
        null_device().description == "Null sink (discards audio, for tests)"@,
        null_device().kind == DeviceKind::Null,
        null_device().card_name is None,
{
}

/// A format is told by its depth, its rate and its channels.
pub proof fn a_format_is_told(f: PcmFormat)
    ensures
        f.description() == dec(f.bits as nat) + " bit / "@ + dec(f.sample_rate as nat) + " Hz / "@
            + dec(f.channels as nat) + " ch"@,
{
}

/// A device is fed in periods of a twentieth of a second, within bounds.
pub proof fn periods_last_a_twentieth(rate: u32, n: u32)
    requires
        call_ensures(crate::audio::sink::AlsaSink::period_frames, (rate,), n),
    ensures
        1024 <= n <= 16384,
        20 * 1024 <= rate <= 20 * 16384 ==> n == rate / 20,
        rate < 20 * 1024 ==> n == 1024,
{
}

/// The length of a track is what its container says, else that of its frames.
pub proof fn the_length_is_that_of_the_frames(ms: u64, n: u64, rate: u32, r: Option<u64>, q: Option<u64>)
    requires
        rate > 0,
        n * 1000 <= u64::MAX,
        call_ensures(
            crate::audio::stream::track_duration_ms,
            (Some(ms), Some(n), Some(rate)),
            r,
        ),
        call_ensures(crate::audio::stream::track_duration_ms, (None, Some(n), Some(rate)), q),
    ensures
        r == Some(ms),
        q == Some((n * 1000 / rate as int) as u64),
{
}

/// Only a device that mixes or resamples is not bit-perfect.
pub proof fn only_mixing_is_not_bit_perfect(k: DeviceKind, r: bool)
    requires
        call_ensures(DeviceKind::is_bit_perfect, (k,), r),
    ensures
        r <==> k == DeviceKind::Hardware || k == DeviceKind::Null || k == DeviceKind::File,
{
}

/// A write that was interrupted is repaired, and tried again where the device was
/// only busy, up to eight times in a row; any other failure is one.
pub proof fn an_interrupted_write_is_repaired(
    p: crate::audio::sink::WriteProgress,
    errno: i32,
    r: (crate::audio::sink::WriteProgress, crate::audio::sink::WriteAction),
)
    requires
        call_ensures(crate::audio::sink::WriteProgress::failed, (p, errno), r),
    ensures
        r.0.off == p.off,
        (errno == 32 || errno == 86) && p.recoveries < 8 ==> r.1
            == crate::audio::sink::WriteAction::Recover && r.0.recoveries == p.recoveries + 1,
        errno == 11 && p.recoveries < 8 ==> r.1 == crate::audio::sink::WriteAction::Write
            && r.0.recoveries == p.recoveries + 1,
        p.recoveries >= 8 ==> r.1 == crate::audio::sink::WriteAction::Fail,
        errno != 32 && errno != 86 && errno != 11 ==> r.1 == crate::audio::sink::WriteAction::Fail,
{
}

/// What has been spooled beyond the position can be read; a reader that has caught
/// up waits, and ends where the download does.
pub proof fn a_reader_waits_for_the_spool(
    s: crate::audio::http::SpoolReader,
    p: crate::audio::http::Progress,
    w: crate::audio::http::SpoolWait,
)
    requires
        call_ensures(crate::audio::http::SpoolReader::wait_for, (&s, &p), w),
    ensures
        p.downloaded > s.pos ==> w == crate::audio::http::SpoolWait::Ready(
            (p.downloaded - s.pos) as u64,
        ),
        p.downloaded <= s.pos && !p.done ==> w is Wait,
        p.downloaded <= s.pos && p.done && p.error is None ==> w is End,
        p.downloaded <= s.pos && p.done && p.error is Some && s.pos < s.len ==> w is Failed,
        p.downloaded <= s.pos && p.done && s.pos >= s.len ==> w is End,
{
}

/// The title of a stream stands between its quotes.
pub proof fn a_title_stands_in_quotes(
    text: Seq<char>,
    a: Seq<char>,
    rest: Seq<char>,
    title: Seq<char>,
    b: Seq<char>,
)
    requires
        cut_once(text, "StreamTitle='"@) == Some((a, rest)),
    ensures
        cut_once(rest, "';"@) == Some((title, b)) ==> crate::audio::icy::title_in(text) == Some(
            trim(title),
        ),
        cut_once(rest, "';"@) is None && crate::text::rcut_once(rest, "'"@) == Some((title, b))
            ==> crate::audio::icy::title_in(text) == Some(trim(title)),
{
}

/// Titles are read as UTF-8 where they are, and as Latin-1 otherwise.
pub proof fn titles_are_read_as_text(block: Seq<u8>)
    ensures
        vstd::utf8::valid_utf8(block) ==> crate::audio::icy::block_text(block)
            == vstd::utf8::decode_utf8(block),
        !vstd::utf8::valid_utf8(block) ==> crate::audio::icy::block_text(block)
            == crate::text::latin1(block),
{
}

} // verus!
