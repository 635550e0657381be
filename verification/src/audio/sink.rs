//! Sinks: what a device takes, what is refused, and the bytes that go out.

use vstd::prelude::*;

use crate::audio::device::{classify, kind_of, DeviceInfo, DeviceKind, DeviceView};
use crate::audio::error::AudioError;
use crate::audio::fmt::{
    append_container, container_bytes, container_named, first_supported, negotiate, preferences,
    Container, PcmFormat,
};
use crate::text::{
    chars_of, copy_chars, copy_str, dec, join, join_strings, push_dec, rcut, rcut_once, split,
    split_on, starts_with, starts_with_chars, string_of, texts,
};

verus! {

/// A byte sink for one track. `open` configures the exact source format:
/// sinks must refuse (never silently resample) what they cannot honor.
pub trait AudioSink {
    /// The format that the sink is open for.
    spec fn format(&self) -> Option<PcmFormat>;

    /// The container negotiated with the device.
    spec fn container(&self) -> Option<Container>;

    /// The device behind the sink.
    spec fn target(&self) -> DeviceView;

    fn device(&self) -> (d: &DeviceInfo)
        ensures
            d@ == self.target(),
    ;

    fn opened_format(&self) -> (r: Option<PcmFormat>)
        ensures
            r == self.format(),
    ;

    /// Container actually negotiated with the device by the last `open`.
    fn opened_container(&self) -> (r: Option<Container>)
        ensures
            r == self.container(),
    ;

    /// (Re)open the sink at the exact given format.
    fn open(&mut self, fmt: PcmFormat) -> (r: Result<(), AudioError>)
        ensures
            r is Ok ==> final(self).format() == Some(fmt) && (final(self).container() matches Some(
                c,
            ) && c.depth() >= fmt.bits),
            final(self).target() == old(self).target(),
    ;

    /// Write interleaved LSB-aligned i32 samples; consumes them all or errors.
    fn write_i32(&mut self, samples: &[i32]) -> (r: Result<(), AudioError>)
        ensures
            old(self).format() is None ==> r is Err,
            final(self).format() == old(self).format(),
            final(self).container() == old(self).container(),
            final(self).target() == old(self).target(),
    ;

    /// Flush everything currently queued (used before a format change).
    fn drain(&mut self) -> (r: Result<(), AudioError>)
        ensures
            final(self).format() == old(self).format(),
            final(self).container() == old(self).container(),
            final(self).target() == old(self).target(),
    ;

    /// Release the device.
    fn close(&mut self)
        ensures
            final(self).format() is None,
            final(self).container() is None,
            final(self).target() == old(self).target(),
    ;

    /// Halt output without underrunning; `resume` continues where it stopped.
    fn pause(&mut self) -> (r: Result<(), AudioError>)
        ensures
            final(self).format() == old(self).format(),
            final(self).container() == old(self).container(),
            final(self).target() == old(self).target(),
        default_ensures
            r is Ok,
    {
        Ok(())
    }

    /// Continue after `pause`.
    fn resume(&mut self) -> (r: Result<(), AudioError>)
        ensures
            final(self).format() == old(self).format(),
            final(self).container() == old(self).container(),
            final(self).target() == old(self).target(),
        default_ensures
            r is Ok,
    {
        Ok(())
    }

    /// Throw away queued, not yet audible audio (seek / stop).
    fn discard(&mut self) -> (r: Result<(), AudioError>)
        ensures
            final(self).format() == old(self).format(),
            final(self).container() == old(self).container(),
            final(self).target() == old(self).target(),
        default_ensures
            r is Ok,
    {
        Ok(())
    }

    /// Frames written but not yet audible.
    fn delay_frames(&self) -> (n: u64)
        default_ensures
            n == 0,
    {
        0
    }
}

/// A sink that a device can be played on.
#[derive(Debug)]
pub enum Sink {
    /// Appends raw container bytes to a file.
    File(FileSink),
    /// Plays on an ALSA device, ALSA's own `null` plugin among them.
    Alsa(AlsaSink),
}

/// The sink for a device, which is closed.
pub fn make_sink(device: &DeviceInfo) -> (s: Sink)
    ensures
        match device.kind {
            DeviceKind::File => s matches Sink::File(f) && f.closed_for(device@),
            DeviceKind::Null | DeviceKind::Hardware | DeviceKind::Virtual => s matches Sink::Alsa(
                a,
            ) && a.closed_for(device@),
        },
{
    match device.kind {
        DeviceKind::File => Sink::File(FileSink::new(device.clone())),
        DeviceKind::Null | DeviceKind::Hardware | DeviceKind::Virtual => Sink::Alsa(
            AlsaSink::new(device.clone()),
        ),
    }
}

// ---------------------------------------------------------------------------
// Refusals
// ---------------------------------------------------------------------------

/// Whether an error is the device's refusal of what `detail` describes.
pub open spec fn is_refusal(e: AudioError, device: Seq<char>, detail: Seq<char>) -> bool {
    e matches AudioError::FormatRefused { device: d, detail: t } && d@ == device && t@ == detail
}

fn refuse(device: &DeviceInfo, detail: String) -> (e: AudioError)
    ensures
        is_refusal(e, device.name@, detail@),
{
    AudioError::FormatRefused { device: device.name.clone(), detail }
}

/// The labels of some containers.
pub open spec fn labels(containers: Seq<Container>) -> Seq<Seq<char>> {
    Seq::new(containers.len(), |i: int| containers[i].name())
}

/// What is said of content that no supported container can carry.
pub open spec fn refused_depth(bits: u8, supported: Seq<Container>) -> Seq<char> {
    dec(bits as nat) + "-bit content (it only accepts "@ + (if supported.len() == 0 {
        "no linear PCM format"@
    } else {
        join(labels(supported), ", "@)
    }) + ")"@
}

/// The container that carries the format on a device that supports the given
/// ones, or the device's refusal.
pub fn negotiate_or_refuse(
    device: &DeviceInfo,
    fmt: PcmFormat,
    supported: &[Container],
) -> (r: Result<Container, AudioError>)
    ensures
        match first_supported(preferences(fmt.bits), supported@) {
            Some(c) => r == Ok::<Container, AudioError>(c) && c.depth() >= fmt.bits
                && supported@.contains(c),
            None => r matches Err(e) && is_refusal(
                e,
                device.name@,
                refused_depth(fmt.bits, supported@),
            ),
        },
{
    match negotiate(fmt.bits, supported) {
        Some(c) => Ok(c),
        None => {
            let mut names: Vec<String> = Vec::new();
            for i in 0..supported.len()
                invariant
                    texts(names@) == labels(supported@).subrange(0, i as int),
            {
                let ghost before = names@;
                names.push(copy_str(supported[i].label()));
                assert(texts(names@) == texts(before).push(supported@[i as int].name()));
                assert(labels(supported@).subrange(0, i + 1) == labels(supported@).subrange(
                    0,
                    i as int,
                ).push(supported@[i as int].name()));
            }
            assert(labels(supported@).subrange(0, supported@.len() as int) == labels(supported@));
            let mut detail = String::new();
            push_dec(&mut detail, fmt.bits as u64);
            detail.push_str("-bit content (it only accepts ");
            if supported.len() == 0 {
                detail.push_str("no linear PCM format");
            } else {
                detail.push_str(join_strings(&names, ", ").as_str());
            }
            detail.push_str(")");
            assert(detail@ == refused_depth(fmt.bits, supported@));
            Err(refuse(device, detail))
        },
    }
}

// ---------------------------------------------------------------------------
// ALSA
// ---------------------------------------------------------------------------

// errno values (positive).
pub const EAGAIN: i32 = 11;

pub const ENODEV: i32 = 19;

pub const EPIPE: i32 = 32;

pub const ESTRPIPE: i32 = 86;

pub const ESHUTDOWN: i32 = 108;

/// The states of an ALSA PCM that pausing and resuming tell apart.
#[derive(Debug, Clone, Copy, PartialEq, Eq, Structural)]
pub enum PcmState {
    Setup,
    Prepared,
    Running,
    XRun,
    Paused,
    Other,
}

/// What is done to a PCM to halt it or to go on.
#[derive(Debug, Clone, Copy, PartialEq, Eq, Structural)]
pub enum PcmAction {
    /// Leave it alone.
    Nothing,
    /// Hardware pause; where that fails, drop the buffer.
    PauseOrDrop,
    /// Drop the buffer.
    Drop,
    /// Release a hardware pause.
    Unpause,
    /// Prepare it for a new start.
    Prepare,
}

/// What comes next while a block of bytes is written.
#[derive(Debug, Clone, Copy, PartialEq, Eq, Structural)]
pub enum WriteAction {
    /// Everything has been written.
    Done,
    /// Write the bytes from the offset on.
    Write,
    /// The device took nothing: wait a little, then write.
    Wait,
    /// Recover from the error, then write.
    Recover,
    /// Give up.
    Fail,
}

/// How often in a row recovery is tried before a write gives up.
pub const MAX_RECOVERIES: u32 = 8;

/// A block of bytes on its way to an ALSA device.
#[derive(Debug, Clone, Copy, PartialEq, Eq, Structural)]
pub struct WriteProgress {
    /// Bytes the device has taken.
    pub off: usize,
    /// Errors in a row.
    pub recoveries: u32,
}

/// What `write_step` has to do next.
pub open spec fn next_write(off: int, len: int) -> WriteAction {
    if off < len {
        WriteAction::Write
    } else {
        WriteAction::Done
    }
}

impl WriteProgress {
    pub fn start(len: usize) -> (r: (WriteProgress, WriteAction))
        ensures
            r.0 == (WriteProgress { off: 0, recoveries: 0 }),
            r.1 == next_write(0, len as int),
    {
        (
            WriteProgress { off: 0, recoveries: 0 },
            if 0 < len {
                WriteAction::Write
            } else {
                WriteAction::Done
            },
        )
    }

    /// The device took `frames` frames of `frame_bytes` bytes each.
    pub fn wrote(self, frames: usize, frame_bytes: usize, len: usize) -> (r: (
        WriteProgress,
        WriteAction,
    ))
        requires
            self.off + frames * frame_bytes <= usize::MAX,
        ensures
            frames == 0 ==> r == (self, WriteAction::Wait),
            frames > 0 ==> r.0.off == self.off + frames * frame_bytes && r.0.recoveries == 0 && r.1
                == next_write(r.0.off as int, len as int),
    {
        if frames == 0 {
            return (self, WriteAction::Wait);
        }
        assert(0 <= frames * frame_bytes) by (nonlinear_arith);
        let off: usize = self.off + frames * frame_bytes;
        (
            WriteProgress { off, recoveries: 0 },
            if off < len {
                WriteAction::Write
            } else {
                WriteAction::Done
            },
        )
    }

    /// The write failed. Underrun, suspend and would-block are recoverable;
    /// give up if recovery keeps failing rather than spinning forever.
    pub fn failed(self, errno: i32) -> (r: (WriteProgress, WriteAction))
        ensures
            ({
                let known = errno == EPIPE || errno == ESTRPIPE || errno == EAGAIN;
                if known && self.recoveries < MAX_RECOVERIES {
                    &&& r.0 == (WriteProgress {
                        off: self.off,
                        recoveries: (self.recoveries + 1) as u32,
                    })
                    &&& r.1 == (if errno == EAGAIN {
                        WriteAction::Write
                    } else {
                        WriteAction::Recover
                    })
                } else {
                    r == (self, WriteAction::Fail)
                }
            }),
    {
        if (errno == EPIPE || errno == ESTRPIPE || errno == EAGAIN) && self.recoveries
            < MAX_RECOVERIES {
            let next = WriteProgress { off: self.off, recoveries: self.recoveries + 1 };
            if errno != EAGAIN {
                (next, WriteAction::Recover)
            } else {
                (next, WriteAction::Write)
            }
        } else {
            (self, WriteAction::Fail)
        }
    }
}

/// What an ALSA device is open for.
#[derive(Debug)]
pub struct AlsaSink {
    pub device: DeviceInfo,
    pub fmt: Option<PcmFormat>,
    pub container: Option<Container>,
    pub can_pause: bool,
}

impl AlsaSink {
    /// Open for nothing.
    pub open spec fn closed_for(&self, device: DeviceView) -> bool {
        self.device@ == device && self.fmt is None && self.container is None && !self.can_pause
    }

    /// What is open can be written: the container carries the format.
    pub open spec fn wf(&self) -> bool {
        match (self.fmt, self.container) {
            (Some(f), Some(c)) => c.depth() >= f.bits,
            (None, None) => true,
            _ => false,
        }
    }

    pub fn new(device: DeviceInfo) -> (s: AlsaSink)
        ensures
            s.closed_for(device@),
            s.wf(),
    {
        AlsaSink { device, fmt: None, container: None, can_pause: false }
    }

    /// The error for an errno: a device that went away is told apart.
    pub fn err(&self, errno: i32, source: &str) -> (e: AudioError)
        ensures
            if errno == ENODEV || errno == ESHUTDOWN {
                e matches AudioError::DeviceGone { device } && device@ == self.device.name@
            } else {
                e matches AudioError::Alsa { device, source: s } && device@ == self.device.name@
                    && s@ == source@
            },
    {
        if errno == ENODEV || errno == ESHUTDOWN {
            AudioError::DeviceGone { device: self.device.name.clone() }
        } else {
            AudioError::Alsa { device: self.device.name.clone(), source: copy_str(source) }
        }
    }

    /// The refusal of a number of channels.
    pub fn refuse_channels(&self, fmt: PcmFormat) -> (e: AudioError)
        ensures
            is_refusal(e, self.device.name@, dec(fmt.channels as nat) + " channels"@),
    {
        let mut detail = String::new();
        push_dec(&mut detail, fmt.channels as u64);
        detail.push_str(" channels");
        refuse(&self.device, detail)
    }

    /// The refusal of a sample rate.
    pub fn refuse_rate(&self, fmt: PcmFormat) -> (e: AudioError)
        ensures
            is_refusal(e, self.device.name@, dec(fmt.sample_rate as nat) + " Hz"@),
    {
        let mut detail = String::new();
        push_dec(&mut detail, fmt.sample_rate as u64);
        detail.push_str(" Hz");
        refuse(&self.device, detail)
    }

    /// The period to ask for: a twentieth of a second, within bounds.
    pub fn period_frames(sample_rate: u32) -> (n: u32)
        ensures
            n == (if sample_rate / 20 < 1024 {
                1024
            } else if sample_rate / 20 > 16384 {
                16384
            } else {
                sample_rate as int / 20
            }),
    {
        let n: u32 = sample_rate / 20;
        if n < 1024 {
            1024
        } else if n > 16384 {
            16384
        } else {
            n
        }
    }

    /// Bit-perfect policy: what the device settled on must be exactly what the
    /// track asked for — no silent resampling, ever.
    pub fn settled(
        &mut self,
        fmt: PcmFormat,
        container: Container,
        got: (u32, u32, Option<Container>),
        can_pause: bool,
    ) -> (r: Result<(), AudioError>)
        requires
            container.depth() >= fmt.bits,
            old(self).wf(),
        ensures
            final(self).wf(),
            final(self).device == old(self).device,
            got == (fmt.sample_rate, fmt.channels as u32, Some(container)) ==> r is Ok
                && final(self).fmt == Some(fmt) && final(self).container == Some(container)
                && final(self).can_pause == can_pause,
            got != (fmt.sample_rate, fmt.channels as u32, Some(container)) ==> (r matches Err(
                AudioError::UnsupportedFormat(d),
            ) && d@ == old(self).device.name@) && *final(self) == *old(self),
    {
        let same = got.0 == fmt.sample_rate && got.1 == fmt.channels as u32 && (match got.2 {
            Some(c) => c == container,
            None => false,
        });
        if !same {
            return Err(AudioError::UnsupportedFormat(self.device.name.clone()));
        }
        self.fmt = Some(fmt);
        self.container = Some(container);
        self.can_pause = can_pause;
        Ok(())
    }

    /// The bytes for a block of samples, and how many bytes a frame takes.
    pub fn encode(&self, samples: &[i32]) -> (r: Result<(Vec<u8>, usize), AudioError>)
        requires
            self.wf(),
            self.fmt matches Some(f) ==> f.bits > 0,
        ensures
            match (self.fmt, self.container) {
                (Some(f), Some(c)) => r matches Ok(out) && out.0@ == container_bytes(
                    samples@,
                    c,
                    f.bits,
                ) && out.1 == c.width() * f.channels,
                _ => r matches Err(AudioError::UnsupportedSource(s)) && s@ == "sink not open"@,
            },
    {
        match (self.fmt, self.container) {
            (Some(f), Some(c)) => {
                let mut bytes: Vec<u8> = Vec::new();
                append_container(&mut bytes, samples, c, f.bits);
                let width: usize = c.bytes_per_sample();
                assert(width * f.channels <= 4 * 65535) by (nonlinear_arith)
                    requires
                        width <= 4,
                        f.channels <= 65535,
                ;
                Ok((bytes, width * f.channels as usize))
            },
            _ => Err(AudioError::UnsupportedSource(copy_str("sink not open"))),
        }
    }

    /// Halting: hardware pause keeps the buffer; otherwise it is dropped so
    /// that the device stops cleanly instead of underrunning. A PCM that is
    /// not running cannot underrun.
    pub fn pause_action(&self, state: PcmState) -> (a: PcmAction)
        ensures
            a == (if self.fmt is None || state != PcmState::Running {
                PcmAction::Nothing
            } else if self.can_pause {
                PcmAction::PauseOrDrop
            } else {
                PcmAction::Drop
            }),
    {
        if self.fmt.is_none() || state != PcmState::Running {
            PcmAction::Nothing
        } else if self.can_pause {
            PcmAction::PauseOrDrop
        } else {
            PcmAction::Drop
        }
    }

    pub fn resume_action(&self, state: PcmState) -> (a: PcmAction)
        ensures
            a == (if self.fmt is None {
                PcmAction::Nothing
            } else {
                match state {
                    PcmState::Paused => PcmAction::Unpause,
                    PcmState::Setup | PcmState::XRun => PcmAction::Prepare,
                    _ => PcmAction::Nothing,
                }
            }),
    {
        if self.fmt.is_none() {
            return PcmAction::Nothing;
        }
        match state {
            PcmState::Paused => PcmAction::Unpause,
            PcmState::Setup | PcmState::XRun => PcmAction::Prepare,
            _ => PcmAction::Nothing,
        }
    }

    /// Frames written but not yet audible, from the delay that ALSA reports.
    pub fn delay_frames(&self, reported: Option<i64>) -> (n: u64)
        ensures
            n == (match reported {
                Some(d) => if self.fmt is Some && d > 0 {
                    d as int
                } else {
                    0
                },
                None => 0,
            }),
    {
        match reported {
            Some(d) => if self.fmt.is_some() && d > 0 {
                d as u64
            } else {
                0
            },
            None => 0,
        }
    }

    pub fn close(&mut self)
        ensures
            final(self).closed_for(old(self).device@),
            final(self).device == old(self).device,
            final(self).wf(),
    {
        self.fmt = None;
        self.container = None;
        self.can_pause = false;
    }
}

// ---------------------------------------------------------------------------
// file
// ---------------------------------------------------------------------------

/// The containers that the labels of a list stand for, if each does.
pub open spec fn listed(list: Seq<Seq<char>>) -> Option<Seq<Container>>
    decreases list.len(),
{
    if list.len() == 0 {
        Some(Seq::empty())
    } else {
        match (listed(list.drop_last()), container_named(list.last())) {
            (Some(front), Some(c)) => Some(front.push(c)),
            _ => None,
        }
    }
}

/// The device name without its `file:`.
pub open spec fn file_part(name: Seq<char>) -> Seq<char> {
    if starts_with(name, "file:"@) {
        name.subrange("file:"@.len() as int, name.len() as int)
    } else {
        name
    }
}

/// The path and the containers that a file device's name gives.
pub open spec fn file_spec(name: Seq<char>) -> (Seq<char>, Seq<Container>) {
    let spec_part = file_part(name);
    match rcut_once(spec_part, "?formats="@) {
        Some((path, list)) => match listed(split(list, ',')) {
            Some(formats) => (path, formats),
            None => (spec_part, Container::ALL@),
        },
        None => (spec_part, Container::ALL@),
    }
}

fn parse_listed(list: &Vec<Vec<char>>) -> (r: Option<Vec<Container>>)
    ensures
        match listed(Seq::new(list@.len(), |i: int| list@[i]@)) {
            Some(want) => r matches Some(got) && got@ == want,
            None => r is None,
        },
{
    let ghost all = Seq::new(list@.len(), |i: int| list@[i]@);
    let mut out: Vec<Container> = Vec::new();
    assert(all.subrange(0, 0) == Seq::<Seq<char>>::empty());
    for i in 0..list.len()
        invariant
            all == Seq::new(list@.len(), |i: int| list@[i]@),
            listed(all.subrange(0, i as int)) == Some(out@),
    {
        let label = string_of(&list[i]);
        assert(all.subrange(0, i + 1).drop_last() == all.subrange(0, i as int));
        assert(all.subrange(0, i + 1).last() == label@);
        match Container::from_label(label.as_str()) {
            Some(c) => out.push(c),
            None => {
                proof {
                    lemma_listed_prefix(all, i + 1);
                }
                return None;
            },
        }
    }
    assert(all.subrange(0, all.len() as int) == all);
    Some(out)
}

proof fn lemma_listed_prefix(list: Seq<Seq<char>>, n: int)
    requires
        0 <= n <= list.len(),
        listed(list.subrange(0, n)) is None,
    ensures
        listed(list) is None,
    decreases list.len() - n,
{
    if n == list.len() {
        assert(list.subrange(0, n) == list);
    } else {
        assert(list.subrange(0, n + 1).drop_last() == list.subrange(0, n));
        lemma_listed_prefix(list, n + 1);
    }
}

fn all_containers() -> (v: Vec<Container>)
    ensures
        v@ == Container::ALL@,
{
    let all = Container::ALL;
    let mut v: Vec<Container> = Vec::new();
    for i in 0..4usize
        invariant
            all@ == Container::ALL@,
            all@.len() == 4,
            v@ == all@.subrange(0, i as int),
    {
        v.push(all[i]);
        assert(all@.subrange(0, i + 1) == all@.subrange(0, i as int).push(all@[i as int]));
    }
    assert(all@.subrange(0, 4) == all@);
    v
}

/// `file:<path>[?formats=S32_LE,S24_3LE]`: the optional list restricts the
/// containers the sink accepts, emulating a DAC's capabilities.
pub fn parse_file_spec(name: &str) -> (r: (String, Vec<Container>))
    ensures
        (r.0@, r.1@) == file_spec(name@),
{
    let n = chars_of(name);
    let prefix = chars_of("file:");
    let part: Vec<char> = if starts_with_chars(&n, &prefix) {
        copy_chars(vstd::slice::slice_subrange(&n, prefix.len(), n.len()))
    } else {
        n
    };
    assert(part@ == file_part(name@));
    if let Some((path, list)) = rcut(&part, "?formats=") {
        let pieces = split_on(list, ',');
        assert(Seq::new(pieces@.len(), |i: int| pieces@[i]@) == split(list@, ','));
        if let Some(formats) = parse_listed(&pieces) {
            return (string_of(path), formats);
        }
    }
    (string_of(&part), all_containers())
}

/// The state of a sink that appends to a file exactly the bytes that would be
/// handed to ALSA for the negotiated container, across tracks.
#[derive(Debug)]
pub struct FileSink {
    pub device: DeviceInfo,
    pub path: String,
    pub supported: Vec<Container>,
    pub fmt: Option<PcmFormat>,
    pub container: Option<Container>,
}

impl FileSink {
    /// What is open can be written: the container carries the format.
    pub open spec fn wf(&self) -> bool {
        match (self.fmt, self.container) {
            (Some(f), Some(c)) => c.depth() >= f.bits,
            (None, None) => true,
            _ => false,
        }
    }

    /// Open for nothing; the device's name says which file, and what it takes.
    pub open spec fn closed_for(&self, device: DeviceView) -> bool {
        &&& self.device@ == device
        &&& (self.path@, self.supported@) == file_spec(device.name)
        &&& self.fmt is None
        &&& self.container is None
    }

    pub fn new(device: DeviceInfo) -> (s: FileSink)
        ensures
            s.closed_for(device@),
            s.wf(),
    {
        let (path, supported) = parse_file_spec(device.name.as_str());
        FileSink { device, path, supported, fmt: None, container: None }
    }

    /// Closes the sink, then opens it for a format or refuses it. The caller
    /// opens the file at `path` for appending, and closes the sink again where
    /// that fails.
    pub fn open(&mut self, fmt: PcmFormat) -> (r: Result<(), AudioError>)
        ensures
            final(self).wf(),
            final(self).device == old(self).device,
            final(self).path == old(self).path,
            final(self).supported == old(self).supported,
            match first_supported(preferences(fmt.bits), old(self).supported@) {
                Some(c) => r is Ok && final(self).fmt == Some(fmt) && final(self).container == Some(
                    c,
                ),
                None => (r matches Err(e) && is_refusal(
                    e,
                    old(self).device.name@,
                    refused_depth(fmt.bits, old(self).supported@),
                )) && final(self).fmt is None && final(self).container is None,
            },
    {
        self.close();
        match negotiate_or_refuse(&self.device, fmt, self.supported.as_slice()) {
            Ok(c) => {
                self.container = Some(c);
                self.fmt = Some(fmt);
                Ok(())
            },
            Err(e) => Err(e),
        }
    }

    /// The bytes to append for a block of samples.
    pub fn write_i32(&self, samples: &[i32]) -> (r: Result<Vec<u8>, AudioError>)
        requires
            self.wf(),
            self.fmt matches Some(f) ==> f.bits > 0,
        ensures
            match (self.fmt, self.container) {
                (Some(f), Some(c)) => r matches Ok(out) && out@ == container_bytes(
                    samples@,
                    c,
                    f.bits,
                ),
                _ => r matches Err(AudioError::UnsupportedSource(s)) && s@ == "sink not open"@,
            },
    {
        match (self.fmt, self.container) {
            (Some(f), Some(c)) => {
                let mut bytes: Vec<u8> = Vec::new();
                append_container(&mut bytes, samples, c, f.bits);
                Ok(bytes)
            },
            _ => Err(AudioError::UnsupportedSource(copy_str("sink not open"))),
        }
    }

    pub fn close(&mut self)
        ensures
            final(self).wf(),
            final(self).fmt is None,
            final(self).container is None,
            final(self).device == old(self).device,
            final(self).path == old(self).path,
            final(self).supported == old(self).supported,
    {
        self.fmt = None;
        self.container = None;
    }
}

// ---------------------------------------------------------------------------
// null
// ---------------------------------------------------------------------------

/// A sink that counts frames and discards them.
#[derive(Debug)]
pub struct NullSink {
    device: DeviceInfo,
    fmt: Option<PcmFormat>,
    container: Option<Container>,
    frames: u64,
}

impl NullSink {
    /// Frames written since the sink was opened.
    pub closed spec fn frames(&self) -> u64 {
        self.frames
    }

    pub fn new(device: DeviceInfo) -> (s: NullSink)
        ensures
            s.target() == device@,
            s.format() is None,
            s.container() is None,
            s.frames() == 0,
    {
        NullSink { device, fmt: None, container: None, frames: 0 }
    }

    pub fn frames_written(&self) -> (n: u64)
        ensures
            n == self.frames(),
    {
        self.frames
    }
}

impl AudioSink for NullSink {
    closed spec fn format(&self) -> Option<PcmFormat> {
        self.fmt
    }

    closed spec fn container(&self) -> Option<Container> {
        self.container
    }

    closed spec fn target(&self) -> DeviceView {
        self.device@
    }

    fn device(&self) -> (d: &DeviceInfo) {
        &self.device
    }

    fn opened_format(&self) -> (r: Option<PcmFormat>) {
        self.fmt
    }

    fn opened_container(&self) -> (r: Option<Container>) {
        self.container
    }

    fn open(&mut self, fmt: PcmFormat) -> (r: Result<(), AudioError>)
        ensures
            match first_supported(preferences(fmt.bits), Container::ALL@) {
                Some(c) => r is Ok && final(self).container() == Some(c) && final(self).frames()
                    == 0,
                None => (r matches Err(e) && is_refusal(
                    e,
                    old(self).target().name,
                    refused_depth(fmt.bits, Container::ALL@),
                )) && *final(self) == *old(self),
            },
    {
        let all = all_containers();
        match negotiate_or_refuse(&self.device, fmt, all.as_slice()) {
            Ok(c) => {
                self.container = Some(c);
                self.fmt = Some(fmt);
                self.frames = 0;
                Ok(())
            },
            Err(e) => Err(e),
        }
    }

    /// Counts the whole frames in `samples`.
    fn write_i32(&mut self, samples: &[i32]) -> (r: Result<(), AudioError>)
        ensures
            match old(self).format() {
                Some(f) => {
                    let n = samples@.len() / (if f.channels == 0 {
                        1nat
                    } else {
                        f.channels as nat
                    });
                    &&& r is Ok
                    &&& old(self).frames() + n <= u64::MAX ==> final(self).frames() == old(
                        self,
                    ).frames() + n
                },
                None => (r matches Err(AudioError::UnsupportedSource(s)) && s@ == "sink not open"@)
                    && *final(self) == *old(self),
            },
    {
        match self.fmt {
            Some(f) => {
                let channels: usize = if f.channels == 0 {
                    1
                } else {
                    f.channels as usize
                };
                self.frames = self.frames.saturating_add((samples.len() / channels) as u64);
                Ok(())
            },
            None => Err(AudioError::UnsupportedSource(copy_str("sink not open"))),
        }
    }

    fn drain(&mut self) -> (r: Result<(), AudioError>)
        ensures
            r is Ok,
    {
        Ok(())
    }

    fn close(&mut self)
        ensures
            final(self).frames() == old(self).frames(),
    {
        self.fmt = None;
        self.container = None;
    }
}

/// Sink selected by device string (`null`, `file:<path>`, else ALSA).
pub fn device_info(name: &str) -> (d: DeviceInfo)
    ensures
        d@ == (DeviceView {
            name: name@,
            description: "user selected"@,
            kind: kind_of(name@),
            card_name: None,
        }),
{
    DeviceInfo {
        name: copy_str(name),
        description: copy_str("user selected"),
        kind: classify(name),
        card_name: None,
    }
}

} // verus!
