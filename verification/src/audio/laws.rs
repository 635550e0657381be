//! What the playback engine promises over all its steps.

use vstd::arithmetic::power2::{lemma2_to64, lemma_pow2_adds, lemma_pow2_pos, pow2};
use vstd::prelude::*;

use crate::audio::error::AudioError;
use crate::audio::fmt::{
    container_bytes, containers_are_lossless, fits, le_signed, padding, sample_bytes, Container,
    PcmFormat,
};
use crate::audio::gain::TrackOpts;
use crate::audio::player::{
    after, begun, commanded, current_ended, decoded, engine_wf, error_effect, follow, followed,
    next_rate_known, opened, playing_uri, position_reported, rate_known, sink_failed, sink_opened,
    started, status_set, stopped, transitioned, turned, with_phase, written, EffectView, EndReason,
    EngineCommand, EngineView, EventView, NextView, Opened, PhaseView, Pumped, Purpose, SharedView,
    TrackView, TransportStatus,
};
use crate::audio::stream::{alignment_restores_content, lsb_aligned};

verus! {

proof fn lemma_stopped_in_order<S>(e: EngineView<S>, drain: bool)
    requires
        next_rate_known(e.next),
    ensures
        engine_wf(stopped(e, drain).engine),
{
}

pub(crate) proof fn lemma_failed_in_order<S>(e: EngineView<S>, err: AudioError)
    ensures
        engine_wf(sink_failed(e, err).engine),
{
    lemma_stopped_in_order(
        current_ended(EngineView { next: None, ..e }, EndReason::Error).engine,
        false,
    );
}

/// What starting a track needs.
spec fn startable<S>(e: EngineView<S>, purpose: Purpose) -> bool {
    &&& e.current is None
    &&& e.shared.status == e.status
    &&& rate_known(e.sink_format)
    &&& next_rate_known(e.next)
    &&& purpose != Purpose::Preload
    &&& purpose == Purpose::Transition ==> e.status == TransportStatus::Playing
}

proof fn lemma_started_in_order<S>(
    e: EngineView<S>,
    t: TrackView<S>,
    opts: TrackOpts,
    purpose: Purpose,
)
    requires
        startable(e, purpose),
        rate_known(t.format),
    ensures
        engine_wf(started(e, t, opts, purpose).engine),
{
    if t.format is None {
        lemma_stopped_in_order(e, purpose != Purpose::Load);
    }
}

proof fn lemma_transition_in_order<S>(e: EngineView<S>)
    requires
        e.shared.status == e.status,
        e.status == TransportStatus::Playing,
        rate_known(e.sink_format),
        e.sink_format is Some,
        next_rate_known(e.next),
    ensures
        engine_wf(transitioned(e).engine),
{
    let ended = current_ended(e, EndReason::Finished);
    let freed = EngineView {
        next: None,
        shared: SharedView { next_uri: None, ..ended.engine.shared },
        ..ended.engine
    };
    assert(startable(freed, Purpose::Transition));
    match e.next {
        Some((NextView::Open(t), opts)) => lemma_started_in_order(
            freed,
            t,
            opts,
            Purpose::Transition,
        ),
        Some((NextView::Pending(_), _)) => {},
        None => lemma_stopped_in_order(freed, true),
    }
}

pub(crate) proof fn lemma_command_in_order<S>(e: EngineView<S>, cmd: EngineCommand, delay: u64)
    requires
        engine_wf(e),
        e.phase is Ready,
    ensures
        engine_wf(commanded(e, cmd, delay).engine),
{
    match cmd {
        EngineCommand::Stop => lemma_stopped_in_order(
            current_ended(EngineView { next: None, ..e }, EndReason::Stopped).engine,
            false,
        ),
        EngineCommand::Load { .. } => {},
        EngineCommand::EnqueueNext { .. } => {},
        EngineCommand::Pause => {},
        EngineCommand::Resume => {},
        EngineCommand::Seek { .. } => {},
        _ => {},
    }
}

pub(crate) proof fn lemma_turn_in_order<S>(e: EngineView<S>, title: Option<Seq<char>>)
    requires
        engine_wf(e),
        e.phase is Ready,
        e.status == TransportStatus::Playing,
    ensures
        engine_wf(turned(e, title).engine),
{
}

pub(crate) proof fn lemma_decoded_in_order<S>(e: EngineView<S>, r: Result<Pumped, AudioError>)
    requires
        engine_wf(e),
        e.phase is Pumping,
        r matches Ok(p) ==> rate_known(p.format),
    ensures
        engine_wf(decoded(e, r).engine),
{
    match r {
        Err(_) => lemma_stopped_in_order(current_ended(e, EndReason::Error).engine, false),
        Ok(p) => {
            let known = EngineView {
                current: Some(TrackView { format: p.format, ..e.current->0 }),
                phase: PhaseView::Ready,
                ..e
            };
            if p.samples == 0 && p.end_of_stream {
                lemma_transition_in_order(known);
            }
        },
    }
}

pub(crate) proof fn lemma_written_in_order<S>(
    e: EngineView<S>,
    frames: u64,
    end_of_stream: bool,
    r: Result<(), AudioError>,
)
    requires
        engine_wf(e),
        e.phase == (PhaseView::<S>::Writing { frames, end_of_stream }),
    ensures
        engine_wf(written(e, frames, end_of_stream, r).engine),
{
    match r {
        Err(err) => lemma_failed_in_order(e, err),
        Ok(()) => {
            let moved = EngineView {
                pos_frames: if e.pos_frames + frames <= u64::MAX {
                    (e.pos_frames + frames) as u64
                } else {
                    u64::MAX
                },
                phase: PhaseView::Ready,
                ..e
            };
            if end_of_stream {
                lemma_transition_in_order(moved);
            }
        },
    }
}

pub(crate) proof fn lemma_opened_in_order<S>(
    e: EngineView<S>,
    uri: Seq<char>,
    opts: TrackOpts,
    purpose: Purpose,
    o: Opened<S>,
)
    requires
        engine_wf(e),
        e.phase == (PhaseView::<S>::OpenTrack { uri, opts, purpose }),
        o matches Opened::Ready(t) ==> rate_known(t.format),
    ensures
        engine_wf(opened(e, uri, opts, purpose, o).engine),
{
    let idle = with_phase(e, PhaseView::Ready);
    match o {
        Opened::Ready(t) => {
            if purpose != Purpose::Preload {
                lemma_started_in_order(idle, t@, opts, purpose);
            }
        },
        _ => {
            lemma_stopped_in_order(idle, false);
            lemma_stopped_in_order(idle, true);
        },
    }
}

pub(crate) proof fn lemma_sink_opened_in_order<S>(e: EngineView<S>, r: Result<Container, AudioError>)
    requires
        engine_wf(e),
        e.phase is OpenSink || e.phase is ReopenSink,
    ensures
        engine_wf(sink_opened(e, r).engine),
{
    let idle = with_phase(e, PhaseView::Ready);
    if r is Err {
        lemma_stopped_in_order(idle, false);
        lemma_stopped_in_order(current_ended(idle, EndReason::Error).engine, false);
    }
}

proof fn lemma_follow_concat(playing: Option<Seq<char>>, a: Seq<EffectView>, b: Seq<EffectView>)
    ensures
        follow(playing, a + b) == (match follow(playing, a) {
            Some(mid) => follow(mid, b),
            None => None,
        }),
    decreases b.len(),
{
    if b.len() == 0 {
        assert(a + b == a);
    } else {
        lemma_follow_concat(playing, a, b.drop_last());
        assert((a + b).drop_last() == a + b.drop_last());
        assert((a + b).last() == b.last());
    }
}

proof fn lemma_follow_one(playing: Option<Seq<char>>, x: EffectView)
    ensures
        follow(playing, seq![x]) == (match x {
            EffectView::Publish(EventView::TrackStarted { uri, .. }) => if playing is None {
                Some(Some(uri))
            } else {
                None
            },
            EffectView::Publish(EventView::TrackEnded { uri, .. }) => if playing == Some(uri) {
                Some(None)
            } else {
                None
            },
            _ => Some(playing),
        }),
{
    assert(seq![x].drop_last() == Seq::<EffectView>::empty());
    assert(follow(playing, Seq::<EffectView>::empty()) == Some(playing));
}

proof fn lemma_follow_two(playing: Option<Seq<char>>, x: EffectView, y: EffectView)
    ensures
        follow(playing, seq![x, y]) == (match follow(playing, seq![x]) {
            Some(mid) => follow(mid, seq![y]),
            None => None,
        }),
{
    assert(seq![x, y] == seq![x] + seq![y]);
    lemma_follow_concat(playing, seq![x], seq![y]);
}

proof fn lemma_ended<S>(e: EngineView<S>, reason: EndReason)
    ensures
        follow(playing_uri(e), current_ended(e, reason).effects) == Some(None::<Seq<char>>),
        current_ended(e, reason).engine.current is None,
{
    match e.current {
        Some(t) => lemma_follow_one(
            playing_uri(e),
            EffectView::Publish(EventView::TrackEnded { uri: t.uri, reason }),
        ),
        None => {},
    }
}

proof fn lemma_stopped<S>(e: EngineView<S>, drain: bool)
    requires
        e.current is None,
    ensures
        follow(None, stopped(e, drain).effects) == Some(None::<Seq<char>>),
        stopped(e, drain).engine.current is None,
{
    let first = if drain {
        EffectView::DrainSink
    } else {
        EffectView::DiscardSink
    };
    let status = EffectView::Publish(EventView::Status { status: TransportStatus::Stopped });
    lemma_follow_one(None, first);
    lemma_follow_one(None, EffectView::CloseSink);
    lemma_follow_one(None, status);
    lemma_follow_two(None, first, EffectView::CloseSink);
    lemma_follow_concat(None, seq![first, EffectView::CloseSink], seq![status]);
}

proof fn lemma_begun<S>(e: EngineView<S>, t: TrackView<S>, opts: TrackOpts)
    ensures
        follow(None, begun(e, t, opts).effects) == Some(Some(t.uri)),
{
    let started = EffectView::Publish(EventView::TrackStarted { uri: t.uri, format: t.format });
    lemma_follow_one(None, EffectView::RefreshChain);
    lemma_follow_one(None, started);
    lemma_follow_two(None, EffectView::RefreshChain, started);
}

proof fn lemma_started<S>(e: EngineView<S>, t: TrackView<S>, opts: TrackOpts, purpose: Purpose)
    requires
        e.current is None,
    ensures
        follow(None, started(e, t, opts, purpose).effects) == Some(
            playing_uri(started(e, t, opts, purpose).engine),
        ),
{
    let fresh = purpose == Purpose::Load;
    match t.format {
        None => lemma_stopped(e, !fresh),
        Some(fmt) => if !fresh && e.sink_format == Some(fmt) {
            lemma_begun(e, t, opts);
        } else {
            let first = if fresh {
                EffectView::DiscardSink
            } else {
                EffectView::DrainSink
            };
            lemma_follow_one(None, first);
            lemma_follow_one(None, EffectView::CloseSink);
            lemma_follow_two(None, first, EffectView::CloseSink);
        },
    }
}

proof fn lemma_transitioned<S>(e: EngineView<S>)
    ensures
        follow(playing_uri(e), transitioned(e).effects) == Some(
            playing_uri(transitioned(e).engine),
        ),
{
    let ended = current_ended(e, EndReason::Finished);
    lemma_ended(e, EndReason::Finished);
    let freed = EngineView {
        next: None,
        shared: SharedView { next_uri: None, ..ended.engine.shared },
        ..ended.engine
    };
    match e.next {
        Some((NextView::Open(t), opts)) => {
            lemma_started(freed, t, opts, Purpose::Transition);
            lemma_follow_concat(
                playing_uri(e),
                ended.effects,
                started(freed, t, opts, Purpose::Transition).effects,
            );
        },
        Some((NextView::Pending(_), _)) => {},
        None => {
            lemma_stopped(freed, true);
            lemma_follow_concat(playing_uri(e), ended.effects, stopped(freed, true).effects);
        },
    }
}

pub(crate) proof fn lemma_sink_failed<S>(e: EngineView<S>, err: AudioError)
    ensures
        follow(playing_uri(e), sink_failed(e, err).effects) == Some(None::<Seq<char>>),
        sink_failed(e, err).engine.current is None,
{
    let message = if err is DeviceGone {
        err.text() + "; playback stopped"@
    } else {
        "audio output error: "@ + err.text()
    };
    let cleared = EngineView { next: None, ..e };
    let ended = current_ended(cleared, EndReason::Error);
    lemma_ended(cleared, EndReason::Error);
    lemma_follow_one(playing_uri(e), error_effect(message));
    lemma_follow_one(None, EffectView::CloseSink);
    lemma_stopped(ended.engine, false);
    let head = seq![error_effect(message)];
    lemma_follow_concat(playing_uri(e), head, ended.effects);
    lemma_follow_concat(playing_uri(e), head + ended.effects, seq![EffectView::CloseSink]);
    lemma_follow_concat(
        playing_uri(e),
        head + ended.effects + seq![EffectView::CloseSink],
        stopped(ended.engine, false).effects,
    );
}

proof fn lemma_error_then_stopped<S>(e: EngineView<S>, message: Seq<char>, drain: bool)
    requires
        e.current is None,
    ensures
        follow(None, seq![error_effect(message)] + stopped(e, drain).effects) == Some(
            None::<Seq<char>>,
        ),
{
    lemma_stopped(e, drain);
    lemma_follow_one(None, error_effect(message));
    lemma_follow_concat(None, seq![error_effect(message)], stopped(e, drain).effects);
}

proof fn lemma_error_ended_stopped<S>(e: EngineView<S>, message: Seq<char>, reason: EndReason)
    ensures
        follow(
            playing_uri(e),
            seq![error_effect(message)] + current_ended(e, reason).effects + stopped(
                current_ended(e, reason).engine,
                false,
            ).effects,
        ) == Some(None::<Seq<char>>),
{
    let ended = current_ended(e, reason);
    let head = seq![error_effect(message)];
    lemma_ended(e, reason);
    lemma_stopped(ended.engine, false);
    lemma_follow_one(playing_uri(e), error_effect(message));
    lemma_follow_concat(playing_uri(e), head, ended.effects);
    lemma_follow_concat(
        playing_uri(e),
        head + ended.effects,
        stopped(ended.engine, false).effects,
    );
}

pub(crate) proof fn lemma_command_followed<S>(e: EngineView<S>, cmd: EngineCommand, delay: u64)
    ensures
        followed(e, commanded(e, cmd, delay)),
{
    let now = playing_uri(e);
    match cmd {
        EngineCommand::Load { .. } | EngineCommand::EnqueueNext { .. } => {
            lemma_ended(
                EngineView { next: None, shared: SharedView { next_uri: None, ..e.shared }, ..e },
                EndReason::Replaced,
            );
        },
        EngineCommand::Pause => {
            lemma_follow_one(now, position_reported(e, delay).effects[0]);
        },
        EngineCommand::Stop => {
            let cleared = EngineView { next: None, ..e };
            let ended = current_ended(cleared, EndReason::Stopped);
            lemma_ended(cleared, EndReason::Stopped);
            lemma_stopped(ended.engine, false);
            lemma_follow_concat(now, ended.effects, stopped(ended.engine, false).effects);
        },
        EngineCommand::SetVolume { .. } | EngineCommand::SetGain { .. }
        | EngineCommand::SetMute { .. } => {
            lemma_follow_one(now, EffectView::RefreshChain);
        },
        _ => {},
    }
}

pub(crate) proof fn lemma_turn_followed<S>(e: EngineView<S>, title: Option<Seq<char>>)
    ensures
        followed(e, turned(e, title)),
{
    if e.current is None {
        lemma_stopped(e, true);
    } else if let Some(title) = title {
        lemma_follow_one(playing_uri(e), EffectView::Publish(EventView::StreamTitle { title }));
    }
}

pub(crate) proof fn lemma_opened_followed<S>(
    e: EngineView<S>,
    uri: Seq<char>,
    opts: TrackOpts,
    purpose: Purpose,
    o: Opened<S>,
)
    requires
        purpose != Purpose::Preload ==> e.current is None,
    ensures
        followed(e, opened(e, uri, opts, purpose, o)),
{
    let now = playing_uri(e);
    let idle = with_phase(e, PhaseView::Ready);
    match o {
        Opened::Ready(t) => {
            if purpose != Purpose::Preload {
                lemma_started(idle, t@, opts, purpose);
            }
        },
        Opened::Failed(err) => {
            let message = uri + ": "@ + err.text();
            lemma_follow_one(now, error_effect(message));
            if purpose != Purpose::Preload {
                lemma_error_then_stopped(idle, message, purpose == Purpose::Transition);
            }
        },
        Opened::Undecodable => {
            let message = "cannot decode "@ + uri;
            lemma_follow_one(now, error_effect(message));
            if purpose != Purpose::Preload {
                lemma_error_then_stopped(idle, message, purpose == Purpose::Transition);
            }
        },
    }
}

pub(crate) proof fn lemma_sink_opened_followed<S>(e: EngineView<S>, r: Result<Container, AudioError>)
    requires
        e.phase is OpenSink ==> e.current is None,
    ensures
        followed(e, sink_opened(e, r)),
{
    let now = playing_uri(e);
    let idle = with_phase(e, PhaseView::Ready);
    match (e.phase, r) {
        (PhaseView::OpenSink { fmt, track, opts, purpose }, Ok(c)) => {
            let running = EngineView { sink_format: Some(fmt), sink_container: Some(c), ..idle };
            let b = begun(running, track, opts);
            lemma_begun(running, track, opts);
            let status = EffectView::Publish(
                EventView::Status { status: TransportStatus::Playing },
            );
            lemma_follow_one(Some(track.uri), status);
            lemma_follow_concat(None, b.effects, seq![status]);
        },
        (PhaseView::OpenSink { .. }, Err(err)) => {
            lemma_error_then_stopped(idle, e.device.name + ": "@ + err.text(), false);
        },
        (PhaseView::ReopenSink { .. }, Ok(_)) => {
            lemma_follow_one(now, EffectView::RefreshChain);
        },
        (_, Err(err)) => {
            lemma_error_ended_stopped(idle, e.device.name + ": "@ + err.text(), EndReason::Error);
        },
        _ => {},
    }
}

pub(crate) proof fn lemma_decoded_followed<S>(e: EngineView<S>, r: Result<Pumped, AudioError>)
    requires
        e.current is Some,
    ensures
        followed(e, decoded(e, r)),
{
    let now = playing_uri(e);
    match r {
        Err(err) => lemma_error_ended_stopped(
            e,
            e.current->0.uri + ": "@ + err.text(),
            EndReason::Error,
        ),
        Ok(p) => {
            let known = EngineView {
                current: Some(TrackView { format: p.format, ..e.current->0 }),
                phase: PhaseView::Ready,
                ..e
            };
            lemma_transitioned(known);
            lemma_follow_one(now, EffectView::DrainSink);
            lemma_follow_one(now, EffectView::CloseSink);
            lemma_follow_two(now, EffectView::DrainSink, EffectView::CloseSink);
        },
    }
}

pub(crate) proof fn lemma_written_followed<S>(
    e: EngineView<S>,
    frames: u64,
    end_of_stream: bool,
    r: Result<(), AudioError>,
)
    ensures
        followed(e, written(e, frames, end_of_stream, r)),
{
    match r {
        Err(err) => lemma_sink_failed(e, err),
        Ok(()) => {
            let moved = EngineView {
                pos_frames: if e.pos_frames + frames <= u64::MAX {
                    (e.pos_frames + frames) as u64
                } else {
                    u64::MAX
                },
                phase: PhaseView::Ready,
                ..e
            };
            lemma_transitioned(moved);
        },
    }
}

pub(crate) proof fn lemma_status_followed<S>(e: EngineView<S>, status: TransportStatus, delay: u64)
    ensures
        followed(e, status_set(e, status)),
        followed(e, position_reported(e, delay)),
        followed(
            e,
            after(
                status_set(e, status).effects,
                position_reported(status_set(e, status).engine, delay),
            ),
        ),
{
    let now = playing_uri(e);
    let s = status_set(e, status);
    lemma_follow_one(now, s.effects[0]);
    lemma_follow_one(now, position_reported(e, delay).effects[0]);
    lemma_follow_one(now, position_reported(s.engine, delay).effects[0]);
    lemma_follow_concat(now, s.effects, position_reported(s.engine, delay).effects);
}

/// Between two tracks of the same format that were opened in time, the sink is
/// neither drained nor closed nor opened again: the transition has no gap.
pub proof fn transition_is_gapless<S>(e: EngineView<S>, t: TrackView<S>, opts: TrackOpts)
    requires
        e.current is Some,
        e.next == Some((NextView::Open(t), opts)),
        t.format is Some,
        e.sink_format == t.format,
    ensures
        transitioned(e).engine.current == Some(t),
        transitioned(e).engine.sink_format == e.sink_format,
        transitioned(e).engine.phase == PhaseView::<S>::Ready,
        transitioned(e).effects == seq![
            EffectView::Publish(
                EventView::TrackEnded { uri: e.current->0.uri, reason: EndReason::Finished },
            ),
            EffectView::RefreshChain,
            EffectView::Publish(EventView::TrackStarted { uri: t.uri, format: t.format }),
        ],
{
    assert(transitioned(e).effects == seq![
        EffectView::Publish(
            EventView::TrackEnded { uri: e.current->0.uri, reason: EndReason::Finished },
        ),
        EffectView::RefreshChain,
        EffectView::Publish(EventView::TrackStarted { uri: t.uri, format: t.format }),
    ]);
}

/// A change of the format between two tracks lets queued audio play out, then
/// closes the device and opens it for the new format.
pub proof fn rate_change_reopens<S>(
    e: EngineView<S>,
    t: TrackView<S>,
    opts: TrackOpts,
    fmt: PcmFormat,
)
    requires
        e.current is Some,
        e.next == Some((NextView::Open(t), opts)),
        t.format == Some(fmt),
        e.sink_format != Some(fmt),
    ensures
        transitioned(e).engine.phase == (PhaseView::OpenSink {
            fmt,
            track: t,
            opts,
            purpose: Purpose::Transition,
        }),
        transitioned(e).engine.sink_format is None,
        transitioned(e).effects == seq![
            EffectView::Publish(
                EventView::TrackEnded { uri: e.current->0.uri, reason: EndReason::Finished },
            ),
            EffectView::DrainSink,
            EffectView::CloseSink,
        ],
{
    assert(transitioned(e).effects == seq![
        EffectView::Publish(
            EventView::TrackEnded { uri: e.current->0.uri, reason: EndReason::Finished },
        ),
        EffectView::DrainSink,
        EffectView::CloseSink,
    ]);
}

/// The bytes of the sample at `i` among those of a container.
pub open spec fn word_at(bytes: Seq<u8>, container: Container, i: int) -> Seq<u8> {
    bytes.subrange(i * container.width(), (i + 1) * container.width())
}

/// A value of some depth as a decoder hands it over: full-scale.
pub open spec fn full_scale(v: int, bits: u8) -> i32 {
    (v * pow2((32 - bits) as nat)) as i32
}

/// Samples reach the device untouched: of the values that a decoder hands over
/// full-scale, the device gets each as one word of its container, in order, and
/// that word is the value, shifted up by nothing but zeros.
pub proof fn samples_reach_the_device_untouched(values: Seq<int>, bits: u8, container: Container)
    requires
        1 <= bits <= 32,
        bits <= container.depth(),
        forall|i: int| 0 <= i < values.len() ==> fits(#[trigger] values[i], bits),
    ensures
        ({
            let decoded = values.map_values(|v: int| full_scale(v, bits));
            let bytes = container_bytes(lsb_aligned(decoded, bits), container, bits);
            &&& bytes.len() == values.len() * container.width()
            &&& forall|i: int|
                0 <= i < values.len() ==> le_signed(#[trigger] word_at(bytes, container, i))
                    == values[i] * pow2(padding(container, bits))
        }),
{
    let decoded = values.map_values(|v: int| full_scale(v, bits));
    let content = lsb_aligned(decoded, bits);
    assert forall|i: int| 0 <= i < values.len() implies #[trigger] content[i] == values[i] by {
        let v = values[i];
        let p = pow2((32 - bits) as nat) as int;
        lemma_pow2_pos((32 - bits) as nat);
        lemma_pow2_adds((bits - 1) as nat, (32 - bits) as nat);
        lemma2_to64();
        let half = pow2((bits - 1) as nat) as int;
        assert(half * p == 0x8000_0000);
        assert(-0x8000_0000 <= v * p <= 0x7fff_ffff) by (nonlinear_arith)
            requires
                half * p == 0x8000_0000,
                p > 0,
                -half <= v < half,
        ;
        alignment_restores_content(v, bits);
        assert(lsb_aligned(seq![(v * p) as i32], bits)[0] == v);
        assert(decoded[i] == (v * p) as i32);
    }
    lemma_words(content, container, bits);
    let bytes = container_bytes(content, container, bits);
    assert forall|i: int| 0 <= i < values.len() implies le_signed(
        #[trigger] word_at(bytes, container, i),
    ) == values[i] * pow2(padding(container, bits)) by {
        assert(word_at(bytes, container, i) == sample_bytes(content[i], container, bits));
        containers_are_lossless(content[i], container, bits);
    }
}

proof fn lemma_words(samples: Seq<i32>, container: Container, bits: u8)
    ensures
        container_bytes(samples, container, bits).len() == samples.len() * container.width(),
        forall|i: int|
            0 <= i < samples.len() ==> #[trigger] word_at(
                container_bytes(samples, container, bits),
                container,
                i,
            ) == sample_bytes(samples[i], container, bits),
    decreases samples.len(),
{
    let bytes = container_bytes(samples, container, bits);
    let w = container.width() as int;
    if samples.len() == 0 {
        assert(0 * w == 0) by (nonlinear_arith);
    } else {
        let front = samples.drop_last();
        lemma_words(front, container, bits);
        let fb = container_bytes(front, container, bits);
        let last = sample_bytes(samples.last(), container, bits);
        let n = front.len() as int;
        assert((n + 1) * w == n * w + w) by (nonlinear_arith);
        assert forall|i: int| 0 <= i < samples.len() implies #[trigger] word_at(
            bytes,
            container,
            i,
        ) == sample_bytes(samples[i], container, bits) by {
            if i < n {
                assert(0 <= i * w && (i + 1) * w <= n * w) by (nonlinear_arith)
                    requires
                        0 <= i < n,
                        w >= 0,
                ;
                assert(i * w <= (i + 1) * w) by (nonlinear_arith)
                    requires
                        w >= 0,
                ;
                assert(word_at(bytes, container, i) == word_at(fb, container, i));
            } else {
                assert(word_at(bytes, container, i) == last);
            }
        }
    }
}

} // verus!
