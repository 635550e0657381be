//! What the samples of the current track go through on their way to the device.

use vstd::prelude::*;

use crate::audio::device::DeviceKind;
use crate::audio::fmt::{Container, PcmFormat};
use crate::audio::player::{ChainInfo, ChainView};
use crate::controller::state::TrackInfo;
use crate::library::tracks::{hires, is_hires};
use crate::text::{chars_of, copy_str, dec, push_dec, string_of, text_opt, trim, trim_of};
use crate::ui::text::{is_lossy, khz, khz_text, lossy_codec, quality, quality_text, t, translated};

verus! {

/// A step of the chain; whether it leaves the samples untouched.
#[derive(Debug)]
pub struct Hop {
    pub label: String,
    pub value: String,
    pub untouched: bool,
}

/// The contents of a `Hop`.
pub struct HopView {
    pub label: Seq<char>,
    pub value: Seq<char>,
    pub untouched: bool,
}

impl View for Hop {
    type V = HopView;

    open spec fn view(&self) -> HopView {
        HopView { label: self.label@, value: self.value@, untouched: self.untouched }
    }
}

/// The contents of a list of steps.
pub open spec fn hop_views(v: Seq<Hop>) -> Seq<HopView> {
    Seq::new(v.len(), |i: int| v[i]@)
}

pub open spec fn hop(label: Seq<char>, value: Seq<char>, untouched: bool) -> HopView {
    HopView { label, value, untouched }
}

/// What is shown of the chain.
#[derive(Debug)]
pub struct ChainDisplay {
    pub quality: String,
    pub codec: String,
    pub hires: bool,
    /// The decoder has told what it produces.
    pub known: bool,
    /// Untouched samples reach a real DAC: a null or shared device never
    /// qualifies.
    pub bitperfect: bool,
    pub device_label: String,
    pub hops: Vec<Hop>,
    /// Compact form for the player bar.
    pub short: Vec<Hop>,
}

/// What the user set: the volume, whether it is muted, and the language.
#[derive(Debug, Clone, Copy, PartialEq, Eq, Structural)]
pub struct Listening {
    pub volume: u32,
    pub muted: bool,
    pub french: bool,
}

/// The rate of the samples: what the decoder produced, else what the tags say.
pub open spec fn shown_rate(info: TrackInfo, c: ChainView) -> Option<u32> {
    match c.format {
        Some(f) => Some(f.sample_rate),
        None => info.sample_rate,
    }
}

/// The depth of the samples: what the decoder produced, else what the tags say.
pub open spec fn shown_bits(info: TrackInfo, c: ChainView) -> Option<u8> {
    match c.format {
        Some(f) => Some(f.bits),
        None => info.bits,
    }
}

/// What is shown of the quality; the depth of lossy audio means nothing.
pub open spec fn shown_quality(info: TrackInfo, c: ChainView) -> Seq<char> {
    if lossy_codec(text_opt(info.codec)) {
        quality_text(shown_rate(info, c), None, None, None)
    } else {
        quality_text(shown_rate(info, c), shown_bits(info, c), text_opt(info.codec), None)
    }
}

/// Whether the samples are changed on their way: by mute or volume, or by
/// ReplayGain where hardware at full volume is still not bit-perfect.
pub open spec fn gain_touches(c: ChainView, l: Listening) -> bool {
    l.muted || l.volume < 100 || (!c.bit_perfect && c.device_kind == DeviceKind::Hardware
        && c.volume == 100)
}

/// The name of a container.
pub open spec fn container_text(c: Option<Container>) -> Seq<char> {
    match c {
        Some(c) => c.name(),
        None => "?"@,
    }
}

/// What is said of the source.
pub open spec fn source_text(codec: Option<Seq<char>>, format: Option<PcmFormat>) -> Seq<char> {
    match format {
        Some(f) => (match codec {
            Some(c) => c + " · "@,
            None => ""@,
        }) + khz_text(f.sample_rate) + " kHz · "@ + dec(f.channels as nat) + " ch"@ + (
        if lossy_codec(codec) {
            " · lossy"@
        } else {
            ""@
        }),
        None => match codec {
            Some(c) => c,
            None => "—"@,
        },
    }
}

/// What is said of the processing.
pub open spec fn processing_text(l: Listening) -> Seq<char> {
    if l.muted {
        translated("Muted"@, l.french)
    } else if l.volume < 100 {
        translated("Software volume"@, l.french) + " "@ + dec(l.volume as nat) + " %"@
    } else {
        translated("ReplayGain / preamp"@, l.french)
    }
}

/// What is said of the device.
pub open spec fn device_text(c: ChainView, french: bool) -> Seq<char> {
    match c.device_kind {
        DeviceKind::Hardware => c.device + " · "@ + translated("exclusive, no mixer"@, french),
        DeviceKind::Virtual => c.device + " · "@ + translated(
            "shared: may resample or mix"@,
            french,
        ),
        DeviceKind::Null => translated("Null sink: audio discarded"@, french),
        DeviceKind::File => c.device + " · "@ + translated("written to a file"@, french),
    }
}

/// The steps of the chain.
pub open spec fn hops_of(info: TrackInfo, c: ChainView, l: Listening) -> Seq<HopView> {
    let codec = text_opt(info.codec);
    let lossless = !lossy_codec(codec);
    seq![hop(translated("Source"@, l.french), source_text(codec, c.format), lossless)] + (
    match c.format {
        Some(f) => seq![
            hop(
                translated("Decoder"@, l.french),
                translated("Decoded to"@, l.french) + " "@ + dec(f.bits as nat)
                    + "-bit integer PCM"@,
                lossless,
            ),
        ],
        None => Seq::empty(),
    }) + (if gain_touches(c, l) {
        seq![hop(translated("Processing"@, l.french), processing_text(l), false)]
    } else {
        Seq::empty()
    }) + (match c.format {
        Some(f) => seq![
            hop(
                translated("Output format"@, l.french),
                container_text(c.container) + " · "@ + khz_text(f.sample_rate) + " kHz · "@ + dec(
                    f.channels as nat,
                ) + " ch"@,
                true,
            ),
        ],
        None => Seq::empty(),
    }) + seq![
        hop(
            translated("Device"@, l.french),
            device_text(c, l.french),
            c.device_kind == DeviceKind::Hardware,
        ),
    ]
}

/// What is said of the source in short.
pub open spec fn short_source(info: TrackInfo, c: ChainView) -> Seq<char> {
    match info.codec {
        Some(codec) => trim(codec@ + " "@ + shown_quality(info, c)),
        None => trim(shown_quality(info, c)),
    }
}

/// What is said of the processing in short.
pub open spec fn short_processing(l: Listening) -> Seq<char> {
    if l.muted {
        translated("Muted"@, l.french)
    } else if l.volume < 100 {
        dec(l.volume as nat) + " %"@
    } else {
        "ReplayGain"@
    }
}

/// The steps of the chain in short, without labels.
pub open spec fn short_hops(info: TrackInfo, c: ChainView, l: Listening) -> Seq<HopView> {
    seq![hop(""@, short_source(info, c), !lossy_codec(text_opt(info.codec)))] + (if gain_touches(
        c,
        l,
    ) {
        seq![hop(""@, short_processing(l), false)]
    } else {
        Seq::empty()
    }) + (match c.format {
        Some(_) => seq![hop(""@, container_text(c.container), true)],
        None => Seq::empty(),
    }) + seq![
        hop(
            ""@,
            if c.device_kind == DeviceKind::Null {
                translated("Null sink"@, l.french)
            } else {
                c.device
            },
            c.device_kind == DeviceKind::Hardware,
        ),
    ]
}

fn push_hop(v: &mut Vec<Hop>, label: &str, value: String, untouched: bool)
    ensures
        hop_views(final(v)@) == hop_views(old(v)@).push(hop(label@, value@, untouched)),
{
    let ghost before = v@;
    let h = Hop { label: copy_str(label), value, untouched };
    let ghost x = h@;
    v.push(h);
    assert(hop_views(v@) == hop_views(before).push(x));
}

fn codec_str(info: &TrackInfo) -> (r: Option<&str>)
    ensures
        crate::config::str_opt(r) == text_opt(info.codec),
{
    match &info.codec {
        Some(c) => Some(c.as_str()),
        None => None,
    }
}

fn container_str(c: Option<Container>) -> (s: &'static str)
    ensures
        s@ == container_text(c),
{
    match c {
        Some(c) => c.label(),
        None => "?",
    }
}

fn gain_touches_samples(c: &ChainInfo, l: Listening) -> (r: bool)
    ensures
        r == gain_touches(c@, l),
{
    l.muted || l.volume < 100 || (!c.bit_perfect && c.device_kind == DeviceKind::Hardware && c.volume
        == 100)
}

fn source_string(codec: Option<&str>, format: Option<PcmFormat>) -> (s: String)
    ensures
        s@ == source_text(crate::config::str_opt(codec), format),
{
    match format {
        Some(f) => {
            let mut s = copy_str("");
            if let Some(c) = codec {
                s = copy_str(c);
                s.push_str(" · ");
            }
            s.push_str(khz(f.sample_rate).as_str());
            s.push_str(" kHz · ");
            push_dec(&mut s, f.channels as u64);
            s.push_str(" ch");
            if is_lossy(codec) {
                s.push_str(" · lossy");
            } else {
                s.push_str("");
            }
            s
        },
        None => match codec {
            Some(c) => copy_str(c),
            None => copy_str("—"),
        },
    }
}

fn processing_string(l: Listening) -> (s: String)
    ensures
        s@ == processing_text(l),
{
    if l.muted {
        copy_str(t("Muted", l.french))
    } else if l.volume < 100 {
        let mut s = copy_str(t("Software volume", l.french));
        s.push_str(" ");
        push_dec(&mut s, l.volume as u64);
        s.push_str(" %");
        s
    } else {
        copy_str(t("ReplayGain / preamp", l.french))
    }
}

fn on_device(device: &str, what: &'static str, french: bool) -> (s: String)
    ensures
        s@ == device@ + " · "@ + translated(what@, french),
{
    let mut s = copy_str(device);
    s.push_str(" · ");
    s.push_str(t(what, french));
    s
}

fn device_string(c: &ChainInfo, french: bool) -> (s: String)
    ensures
        s@ == device_text(c@, french),
{
    match c.device_kind {
        DeviceKind::Hardware => on_device(c.device.as_str(), "exclusive, no mixer", french),
        DeviceKind::Virtual => on_device(c.device.as_str(), "shared: may resample or mix", french),
        DeviceKind::Null => copy_str(t("Null sink: audio discarded", french)),
        DeviceKind::File => on_device(c.device.as_str(), "written to a file", french),
    }
}

fn decoder_string(bits: u8, french: bool) -> (s: String)
    ensures
        s@ == translated("Decoded to"@, french) + " "@ + dec(bits as nat) + "-bit integer PCM"@,
{
    let mut s = copy_str(t("Decoded to", french));
    s.push_str(" ");
    push_dec(&mut s, bits as u64);
    s.push_str("-bit integer PCM");
    s
}

fn output_string(container: Option<Container>, f: PcmFormat) -> (s: String)
    ensures
        s@ == container_text(container) + " · "@ + khz_text(f.sample_rate) + " kHz · "@ + dec(
            f.channels as nat,
        ) + " ch"@,
{
    let mut s = copy_str(container_str(container));
    s.push_str(" · ");
    s.push_str(khz(f.sample_rate).as_str());
    s.push_str(" kHz · ");
    push_dec(&mut s, f.channels as u64);
    s.push_str(" ch");
    s
}

fn build_hops(info: &TrackInfo, c: &ChainInfo, l: Listening) -> (v: Vec<Hop>)
    ensures
        hop_views(v@) == hops_of(*info, c@, l),
{
    let codec = codec_str(info);
    let lossless = !is_lossy(codec);
    let hardware = c.device_kind == DeviceKind::Hardware;
    let mut v: Vec<Hop> = Vec::new();
    assert(hop_views(v@) == Seq::<HopView>::empty());
    push_hop(&mut v, t("Source", l.french), source_string(codec, c.format), lossless);
    if let Some(f) = c.format {
        push_hop(&mut v, t("Decoder", l.french), decoder_string(f.bits, l.french), lossless);
    }
    if gain_touches_samples(c, l) {
        push_hop(&mut v, t("Processing", l.french), processing_string(l), false);
    }
    if let Some(f) = c.format {
        push_hop(&mut v, t("Output format", l.french), output_string(c.container, f), true);
    }
    push_hop(&mut v, t("Device", l.french), device_string(c, l.french), hardware);
    assert(hop_views(v@) == hops_of(*info, c@, l));
    v
}

fn short_source_string(info: &TrackInfo, quality: &str, Ghost(c): Ghost<ChainView>) -> (s: String)
    requires
        quality@ == shown_quality(*info, c),
    ensures
        s@ == short_source(*info, c),
{
    let mut s = copy_str(quality);
    if let Some(codec) = &info.codec {
        s = codec.clone();
        s.push_str(" ");
        s.push_str(quality);
    }
    let cs = chars_of(s.as_str());
    string_of(trim_of(&cs))
}

fn short_processing_string(l: Listening) -> (s: String)
    ensures
        s@ == short_processing(l),
{
    if l.muted {
        copy_str(t("Muted", l.french))
    } else if l.volume < 100 {
        let mut s = copy_str("");
        proof {
            reveal_strlit("");
        }
        push_dec(&mut s, l.volume as u64);
        s.push_str(" %");
        assert(""@ + dec(l.volume as nat) == dec(l.volume as nat));
        s
    } else {
        copy_str("ReplayGain")
    }
}

fn build_short(info: &TrackInfo, c: &ChainInfo, l: Listening, quality: &str) -> (v: Vec<Hop>)
    requires
        quality@ == shown_quality(*info, c@),
    ensures
        hop_views(v@) == short_hops(*info, c@, l),
{
    let lossless = !is_lossy(codec_str(info));
    let hardware = c.device_kind == DeviceKind::Hardware;
    let mut v: Vec<Hop> = Vec::new();
    assert(hop_views(v@) == Seq::<HopView>::empty());
    push_hop(&mut v, "", short_source_string(info, quality, Ghost(c@)), lossless);
    if gain_touches_samples(c, l) {
        push_hop(&mut v, "", short_processing_string(l), false);
    }
    if c.format.is_some() {
        push_hop(&mut v, "", copy_str(container_str(c.container)), true);
    }
    let name = if c.device_kind == DeviceKind::Null {
        copy_str(t("Null sink", l.french))
    } else {
        copy_str(c.device.as_str())
    };
    push_hop(&mut v, "", name, hardware);
    assert(hop_views(v@) == short_hops(*info, c@, l));
    v
}

/// What is shown of the chain of a track.
pub fn update_chain(info: &TrackInfo, c: &ChainInfo, l: Listening) -> (d: ChainDisplay)
    ensures
        d.quality@ == shown_quality(*info, c@),
        d.codec@ == (match info.codec {
            Some(codec) => codec@,
            None => ""@,
        }),
        d.hires == (!lossy_codec(text_opt(info.codec)) && hires(
            shown_rate(*info, c@),
            shown_bits(*info, c@),
        )),
        d.known == (c@.format is Some),
        d.bitperfect == (c@.format is Some && c@.bit_perfect && c@.device_kind
            == DeviceKind::Hardware),
        d.device_label@ == c@.device,
        hop_views(d.hops@) == hops_of(*info, c@, l),
        hop_views(d.short@) == short_hops(*info, c@, l),
{
    let rate: Option<u32> = match c.format {
        Some(f) => Some(f.sample_rate),
        None => info.sample_rate,
    };
    let bits: Option<u8> = match c.format {
        Some(f) => Some(f.bits),
        None => info.bits,
    };
    let codec = codec_str(info);
    let lossy = is_lossy(codec);
    let q = if lossy {
        quality(rate, None, None, None)
    } else {
        quality(rate, bits, codec, None)
    };
    let hops = build_hops(info, c, l);
    let short = build_short(info, c, l, q.as_str());
    ChainDisplay {
        quality: q,
        codec: match codec {
            Some(s) => copy_str(s),
            None => copy_str(""),
        },
        hires: !lossy && is_hires(rate, bits),
        known: c.format.is_some(),
        bitperfect: c.format.is_some() && c.bit_perfect && c.device_kind == DeviceKind::Hardware,
        device_label: copy_str(c.device.as_str()),
        hops,
        short,
    }
}

/// Where the chain is bit-perfect, nothing touches the samples unless the user's
/// own volume or mute does, and a step says so.
pub proof fn bit_perfect_is_untouched(c: ChainView, l: Listening)
    requires
        c.bit_perfect,
    ensures
        gain_touches(c, l) == (l.muted || l.volume < 100),
{
}

} // verus!
