//! A track on its way from the demuxer to the sink.

use vstd::arithmetic::power2::{lemma_pow2_pos, pow2};
use vstd::prelude::*;
use vstd::slice::slice_subrange;
use vstd::utf8::encode_utf8;

use crate::audio::error::AudioError;
use crate::audio::fmt::{power_of_two, PcmFormat};
use crate::text::{
    chars_of, concat2, copy_str, lowercase, starts_with, starts_with_chars, string_of, to_lowercase,
};
use crate::uri::{local_path, path_from_uri};

verus! {

// ---------------------------------------------------------------------------
// Sources
// ---------------------------------------------------------------------------

/// Where a track's bytes come from.
#[derive(Debug)]
pub enum Source {
    File(String),
    Http,
}

/// Where the bytes of a URI come from: a local file, or a web server.
pub fn source_of(uri: &str) -> (r: Result<Source, AudioError>)
    ensures
        match local_path(uri@) {
            Some(path) => r matches Ok(Source::File(p)) && p@ == path,
            None => if starts_with(uri@, "http://"@) || starts_with(uri@, "https://"@) {
                r matches Ok(Source::Http)
            } else {
                r matches Err(AudioError::UnsupportedSource(u)) && u@ == uri@
            },
        },
{
    match path_from_uri(uri) {
        Some(p) => Ok(Source::File(p)),
        None => {
            let u = chars_of(uri);
            if starts_with_chars(&u, &chars_of("http://")) || starts_with_chars(
                &u,
                &chars_of("https://"),
            ) {
                Ok(Source::Http)
            } else {
                Err(AudioError::UnsupportedSource(copy_str(uri)))
            }
        },
    }
}

/// Where a character of either kind last stands in the first `n` characters;
/// nothing where none does.
pub open spec fn last_of(s: Seq<char>, a: char, b: char, n: int) -> Option<int>
    decreases n,
{
    if n <= 0 || n > s.len() {
        None
    } else if s[n - 1] == a || s[n - 1] == b {
        Some(n - 1)
    } else {
        last_of(s, a, b, n - 1)
    }
}

/// What stands behind the last dot of a URI, without its query and fragment.
pub open spec fn raw_extension(uri: Seq<char>) -> Option<Seq<char>> {
    let path = match last_of(uri, '?', '#', uri.len() as int) {
        Some(i) => uri.subrange(0, i),
        None => uri,
    };
    match last_of(path, '.', '.', path.len() as int) {
        Some(i) => Some(path.subrange(i + 1, path.len() as int)),
        None => None,
    }
}

pub open spec fn ascii_alphanumeric(c: char) -> bool {
    '0' <= c <= '9' || 'a' <= c <= 'z' || 'A' <= c <= 'Z'
}

/// Whether a lower-case text is a file extension: at most four bytes, all
/// ASCII letters and digits.
pub open spec fn is_extension(ext: Seq<char>) -> bool {
    encode_utf8(ext).len() <= 4 && forall|i: int|
        0 <= i < ext.len() ==> ascii_alphanumeric(#[trigger] ext[i])
}

fn find_last(s: &[char], a: char, b: char) -> (r: Option<usize>)
    ensures
        match last_of(s@, a, b, s@.len() as int) {
            Some(i) => r == Some(i as usize) && 0 <= i < s@.len(),
            None => r is None,
        },
{
    let mut n: usize = s.len();
    while n > 0
        invariant
            n <= s.len(),
            last_of(s@, a, b, s@.len() as int) == last_of(s@, a, b, n as int),
        decreases n,
    {
        if s[n - 1] == a || s[n - 1] == b {
            return Some(n - 1);
        }
        n = n - 1;
    }
    None
}

/// The hint that a lower-case extension gives, if it is one.
pub fn extension_hint(ext: String) -> (r: Option<String>)
    ensures
        r == (if is_extension(ext@) {
            Some(ext)
        } else {
            None
        }),
{
    proof {
        lemma_ascii_len(ext@);
    }
    let v = chars_of(ext.as_str());
    for i in 0..v.len()
        invariant
            v@ == ext@,
            forall|j: int| 0 <= j < i ==> ascii_alphanumeric(#[trigger] v@[j]),
    {
        let c = v[i];
        let ok = ('0' <= c && c <= '9') || ('a' <= c && c <= 'z') || ('A' <= c && c <= 'Z');
        if !ok {
            assert(!ascii_alphanumeric(ext@[i as int]));
            return None;
        }
    }
    if v.len() <= 4 {
        Some(ext)
    } else {
        None
    }
}

/// Text of ASCII letters and digits takes a byte per character.
proof fn lemma_ascii_len(s: Seq<char>)
    ensures
        (forall|i: int| 0 <= i < s.len() ==> ascii_alphanumeric(#[trigger] s[i])) ==> encode_utf8(
            s,
        ).len() == s.len(),
{
    if forall|i: int| 0 <= i < s.len() ==> ascii_alphanumeric(#[trigger] s[i]) {
        assert(vstd::utf8::is_ascii_chars(s)) by {
            assert forall|i: int| 0 <= i < s.len() implies '\0' <= #[trigger] s[i]
                <= '\u{7f}' by {
                assert(ascii_alphanumeric(s[i]));
            }
        }
        vstd::utf8::is_ascii_chars_encode_utf8(s);
    }
}

/// The extension of a URI, as a hint for the demuxer.
pub fn extension_of(uri: &str) -> (r: Option<String>)
    ensures
        match raw_extension(uri@) {
            Some(raw) => if is_extension(lowercase(raw)) {
                r matches Some(ext) && ext@ == lowercase(raw)
            } else {
                r is None
            },
            None => r is None,
        },
{
    let u = chars_of(uri);
    let cut: usize = match find_last(&u, '?', '#') {
        Some(i) => i,
        None => u.len(),
    };
    assert(u@.subrange(0, u@.len() as int) == u@);
    let path = slice_subrange(&u, 0, cut);
    match find_last(path, '.', '.') {
        Some(i) => {
            let raw = string_of(slice_subrange(path, i + 1, path.len()));
            extension_hint(to_lowercase(raw.as_str()))
        },
        None => None,
    }
}

/// A track's duration in milliseconds: what the container says, or else what
/// its number of frames comes to.
pub fn track_duration_ms(
    container_ms: Option<u64>,
    frames: Option<u64>,
    sample_rate: Option<u32>,
) -> (r: Option<u64>)
    requires
        sample_rate != Some(0u32),
        frames matches Some(n) ==> n * 1000 <= u64::MAX,
    ensures
        r == (match (container_ms, frames, sample_rate) {
            (Some(ms), _, _) => Some(ms),
            (None, Some(n), Some(rate)) => Some((n * 1000 / rate as int) as u64),
            _ => None,
        }),
{
    match container_ms {
        Some(ms) => Some(ms),
        None => match (frames, sample_rate) {
            (Some(n), Some(rate)) => Some(n * 1000 / rate as u64),
            _ => None,
        },
    }
}

// ---------------------------------------------------------------------------
// Decoding
// ---------------------------------------------------------------------------

/// Sample types that a decoder hands out.
#[derive(Debug, Clone, Copy, PartialEq, Eq, Structural)]
pub enum SampleType {
    U8,
    S8,
    U16,
    S16,
    U24,
    S24,
    U32,
    S32,
    F32,
    F64,
}

/// Integer width of the decoded buffer; `None` for float output (lossy
/// codecs), whose full-scale content we keep 24 bits of, like every other
/// lossy player.
pub open spec fn integer_width(t: SampleType) -> Option<u8> {
    match t {
        SampleType::U8 | SampleType::S8 => Some(8),
        SampleType::U16 | SampleType::S16 => Some(16),
        SampleType::U24 | SampleType::S24 => Some(24),
        SampleType::U32 | SampleType::S32 => Some(32),
        SampleType::F32 | SampleType::F64 => None,
    }
}

pub fn native_bits(t: SampleType) -> (r: Option<u8>)
    ensures
        r == integer_width(t),
{
    match t {
        SampleType::U8 | SampleType::S8 => Some(8),
        SampleType::U16 | SampleType::S16 => Some(16),
        SampleType::U24 | SampleType::S24 => Some(24),
        SampleType::U32 | SampleType::S32 => Some(32),
        SampleType::F32 | SampleType::F64 => None,
    }
}

/// The effective depth of decoded content: what the codec declares (its low
/// byte), else the width of the samples, else 24; between 1 and 32.
pub open spec fn content_depth(declared: Option<u32>, t: SampleType) -> u8 {
    let bits = match declared {
        Some(b) => (b % 256) as int,
        None => match integer_width(t) {
            Some(n) => n as int,
            None => 24,
        },
    };
    (if bits < 1 {
        1
    } else if bits > 32 {
        32
    } else {
        bits
    }) as u8
}

pub fn content_bits(declared: Option<u32>, t: SampleType) -> (bits: u8)
    ensures
        bits == content_depth(declared, t),
        1 <= bits <= 32,
{
    let bits: u8 = match declared {
        Some(b) => (b % 256) as u8,
        None => match native_bits(t) {
            Some(n) => n,
            None => 24,
        },
    };
    if bits < 1 {
        1
    } else if bits > 32 {
        32
    } else {
        bits
    }
}

/// Full-scale samples shifted back to LSB alignment: the depth's most
/// significant bits, with their sign.
pub open spec fn lsb_aligned(samples: Seq<i32>, bits: u8) -> Seq<i32> {
    Seq::new(
        samples.len(),
        |i: int| (samples[i] as int / pow2((32 - bits) as nat) as int) as i32,
    )
}

/// Division rounds towards minus infinity, on machine integers.
fn floor_div(v: i32, p: i64) -> (q: i32)
    requires
        0 < p <= 0x8000_0000,
    ensures
        q == v as int / p as int,
{
    proof {
        assert(-0x8000_0000 <= v as int / p as int <= 0x7fff_ffff) by (nonlinear_arith)
            requires
                0 < p,
                -0x8000_0000 <= v <= 0x7fff_ffff,
        ;
    }
    if v >= 0 {
        (v as i64 / p) as i32
    } else {
        // -((-v - 1) / p) - 1 is the floor for negative numbers.
        let m: i64 = -(v as i64) - 1;
        proof {
            let q = m as int / p as int;
            vstd::arithmetic::div_mod::lemma_fundamental_div_mod(m as int, p as int);
            let r = m as int % p as int;
            assert(v == p * (-q - 1) + (p - 1 - r)) by (nonlinear_arith)
                requires
                    m == p * q + r,
                    m == -v - 1,
            ;
            vstd::arithmetic::div_mod::lemma_fundamental_div_mod_converse(
                v as int,
                p as int,
                -q - 1,
                p - 1 - r,
            );
        }
        (-(m / p) - 1) as i32
    }
}

/// Conversion to `i32` scales every sample type to full range (content
/// MSB-aligned); shift back to LSB alignment so the container stage can
/// re-align losslessly.
pub fn align_samples(samples: &[i32], bits: u8) -> (out: Vec<i32>)
    requires
        1 <= bits <= 32,
    ensures
        out@ == lsb_aligned(samples@, bits),
{
    let p: i64 = power_of_two(32 - bits as u32);
    let mut out: Vec<i32> = Vec::new();
    for i in 0..samples.len()
        invariant
            1 <= bits <= 32,
            p == pow2((32 - bits) as nat),
            0 < p <= 0x8000_0000,
            out@ == lsb_aligned(samples@, bits).subrange(0, i as int),
    {
        out.push(floor_div(samples[i], p));
        assert(lsb_aligned(samples@, bits).subrange(0, i + 1) == lsb_aligned(
            samples@,
            bits,
        ).subrange(0, i as int).push(lsb_aligned(samples@, bits)[i as int]));
    }
    assert(lsb_aligned(samples@, bits).subrange(0, samples@.len() as int) == lsb_aligned(
        samples@,
        bits,
    ));
    out
}

/// What the demuxer and the decoder gave for one packet.
#[derive(Debug)]
pub enum Packet {
    /// The stream is over.
    End,
    /// A packet of another track.
    Foreign,
    /// Decoded full-scale samples.
    Decoded {
        rate: u32,
        channels: u16,
        sample_type: SampleType,
        declared_bits: Option<u32>,
        samples: Vec<i32>,
    },
    /// The packet could not be decoded, but others may.
    Damaged,
    /// The decoder gave up.
    DecoderFailed(String),
    /// The stream's parameters changed.
    ResetRequired,
    /// Reading failed: a truncated final frame surfaces this way.
    ReadFailed,
    /// The demuxer gave up.
    DemuxerFailed(String),
}

/// What to do after a packet.
#[derive(Debug)]
pub enum PumpStep {
    /// Read another packet.
    Again,
    /// Reset the decoder, then read another packet.
    ResetThenAgain,
    /// Samples are there.
    Samples,
    /// Finalize the decoder; the track is over.
    Ended,
    Failed(AudioError),
}

/// A decoded track ready (or nearly ready) to be pumped into a sink.
#[derive(Debug)]
pub struct TrackSource {
    pub uri: String,
    pub duration_ms: Option<u64>,
    /// Known once the first packet has been decoded.
    pub format: Option<PcmFormat>,
    /// Decoded, not-yet-consumed interleaved i32 samples.
    pub pending: Vec<i32>,
    pub end_of_stream: bool,
    pub seekable: bool,
}

impl TrackSource {
    /// A source of which nothing has been decoded.
    pub fn open(uri: &str, duration_ms: Option<u64>, seekable: bool) -> (s: TrackSource)
        ensures
            s.uri@ == uri@,
            s.duration_ms == duration_ms,
            s.format is None,
            s.pending@ == Seq::<i32>::empty(),
            !s.end_of_stream,
            s.seekable == seekable,
    {
        TrackSource {
            uri: copy_str(uri),
            duration_ms,
            format: None,
            pending: Vec::new(),
            end_of_stream: false,
            seekable,
        }
    }

    /// Whether a packet is needed: samples are used up and the stream goes on.
    /// Otherwise the pump has its answer: whether samples remain.
    pub fn needs_packet(&self) -> (r: bool)
        ensures
            r == (self.pending@.len() == 0 && !self.end_of_stream),
    {
        self.pending.len() == 0 && !self.end_of_stream
    }

    /// One packet of a pump that decodes until some samples are available.
    pub fn pump(&mut self, packet: Packet) -> (step: PumpStep)
        requires
            old(self).pending@.len() == 0,
            !old(self).end_of_stream,
        ensures
            final(self).uri == old(self).uri,
            final(self).duration_ms == old(self).duration_ms,
            final(self).seekable == old(self).seekable,
            match packet {
                Packet::End | Packet::ReadFailed => step is Ended && final(self).end_of_stream
                    && final(self).format == old(self).format && final(self).pending@
                    == old(self).pending@,
                Packet::Foreign | Packet::Damaged => step is Again && *final(self) == *old(self),
                Packet::ResetRequired => step is ResetThenAgain && *final(self) == *old(self),
                Packet::Decoded { rate, channels, sample_type, declared_bits, samples } => {
                    let bits = content_depth(declared_bits, sample_type);
                    &&& step is Samples
                    &&& final(self).format == Some(
                        PcmFormat { sample_rate: rate, channels, bits },
                    )
                    &&& final(self).pending@ == lsb_aligned(samples@, bits)
                    &&& !final(self).end_of_stream
                },
                Packet::DecoderFailed(e) => (step matches PumpStep::Failed(AudioError::Decode(m))
                    && m@ == "decode: "@ + e@) && *final(self) == *old(self),
                Packet::DemuxerFailed(e) => (step matches PumpStep::Failed(AudioError::Decode(m))
                    && m@ == "packet: "@ + e@) && *final(self) == *old(self),
            },
    {
        match packet {
            Packet::End | Packet::ReadFailed => {
                self.end_of_stream = true;
                PumpStep::Ended
            },
            Packet::Foreign | Packet::Damaged => PumpStep::Again,
            Packet::ResetRequired => PumpStep::ResetThenAgain,
            Packet::Decoded { rate, channels, sample_type, declared_bits, samples } => {
                let bits: u8 = content_bits(declared_bits, sample_type);
                self.format = Some(PcmFormat { sample_rate: rate, channels, bits });
                self.pending = align_samples(&samples, bits);
                PumpStep::Samples
            },
            Packet::DecoderFailed(e) => PumpStep::Failed(
                AudioError::Decode(concat2("decode: ", e.as_str())),
            ),
            Packet::DemuxerFailed(e) => PumpStep::Failed(
                AudioError::Decode(concat2("packet: ", e.as_str())),
            ),
        }
    }

    /// A seek succeeded: what was decoded is dropped, and the stream goes on.
    pub fn seeked(&mut self)
        ensures
            final(self).pending@ == Seq::<i32>::empty(),
            !final(self).end_of_stream,
            final(self).uri == old(self).uri,
            final(self).duration_ms == old(self).duration_ms,
            final(self).format == old(self).format,
            final(self).seekable == old(self).seekable,
    {
        self.pending = Vec::new();
        self.end_of_stream = false;
    }

    /// Hands out the decoded samples.
    pub fn take_pending(&mut self) -> (v: Vec<i32>)
        ensures
            v@ == old(self).pending@,
            final(self).pending@ == Seq::<i32>::empty(),
            final(self).end_of_stream == old(self).end_of_stream,
            final(self).uri == old(self).uri,
            final(self).duration_ms == old(self).duration_ms,
            final(self).format == old(self).format,
            final(self).seekable == old(self).seekable,
    {
        let mut v: Vec<i32> = Vec::new();
        core::mem::swap(&mut v, &mut self.pending);
        v
    }
}

/// Decoding to full scale and aligning back keeps the content: a sample of the
/// given depth, scaled to 32 bits, comes out as it was.
pub proof fn alignment_restores_content(sample: int, bits: u8)
    requires
        1 <= bits <= 32,
        -0x8000_0000 <= sample * pow2((32 - bits) as nat) <= 0x7fff_ffff,
    ensures
        lsb_aligned(seq![(sample * pow2((32 - bits) as nat)) as i32], bits)[0] == sample,
{
    let p = pow2((32 - bits) as nat) as int;
    lemma_pow2_pos((32 - bits) as nat);
    assert(sample * p == p * sample) by (nonlinear_arith);
    vstd::arithmetic::div_mod::lemma_div_multiples_vanish(sample, p);
    assert(-0x8000_0000 <= sample <= 0x7fff_ffff) by (nonlinear_arith)
        requires
            p >= 1,
            -0x8000_0000 <= sample * p <= 0x7fff_ffff,
    ;
}

} // verus!
