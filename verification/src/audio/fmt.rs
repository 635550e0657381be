//! Sample formats and the wire containers that carry them without loss.

use vstd::arithmetic::power2::{lemma2_to64, lemma_pow2_adds, lemma_pow2_pos, lemma_pow2_strictly_increases, pow2};
use vstd::prelude::*;

use crate::text::{dec, push_dec, same_str};

verus! {

/// Format of the decoded PCM samples of a track, as they reach our pipeline.
///
/// `bits` is the effective depth of the source content (16, 20, 24, 32...).
/// Samples travel internally as interleaved `i32`, LSB-aligned and
/// sign-extended, i.e. a 24-bit sample keeps its exact original value.
#[derive(Debug, Clone, Copy, PartialEq, Eq, Structural)]
pub struct PcmFormat {
    pub sample_rate: u32,
    pub channels: u16,
    pub bits: u8,
}

impl PcmFormat {
    /// The text of `describe`.
    pub open spec fn description(&self) -> Seq<char> {
        dec(self.bits as nat) + " bit / "@ + dec(self.sample_rate as nat) + " Hz / "@ + dec(
            self.channels as nat,
        ) + " ch"@
    }

    pub fn describe(&self) -> (s: String)
        ensures
            s@ == self.description(),
    {
        let mut s = String::new();
        push_dec(&mut s, self.bits as u64);
        s.push_str(" bit / ");
        push_dec(&mut s, self.sample_rate as u64);
        s.push_str(" Hz / ");
        push_dec(&mut s, self.channels as u64);
        s.push_str(" ch");
        s
    }
}

/// Wire container used on a sink for a given source format (ALSA semantics).
#[derive(Debug, Clone, Copy, PartialEq, Eq, Hash, PartialOrd, Ord, Structural)]
pub enum Container {
    /// S16_LE
    S16,
    /// S24_LE: 24 significant bits in the *low* three bytes of a 32-bit LE
    /// word (LSB-aligned, sign-extended into the top byte).
    S24,
    /// S24_3LE: 24 bits packed in 3 bytes.
    S24_3,
    /// S32_LE: 32-bit word, content MSB-aligned.
    S32,
}

impl Container {
    pub const ALL: [Container; 4] = [
        Container::S16,
        Container::S24,
        Container::S24_3,
        Container::S32,
    ];

    /// Bytes that one sample takes on the wire.
    pub open spec fn width(self) -> nat {
        match self {
            Container::S16 => 2,
            Container::S24_3 => 3,
            Container::S24 | Container::S32 => 4,
        }
    }

    /// Number of significant bits the container carries.
    pub open spec fn depth(self) -> nat {
        match self {
            Container::S16 => 16,
            Container::S24 | Container::S24_3 => 24,
            Container::S32 => 32,
        }
    }

    /// The ALSA name of the container.
    pub open spec fn name(self) -> Seq<char> {
        match self {
            Container::S16 => "S16_LE"@,
            Container::S24 => "S24_LE"@,
            Container::S24_3 => "S24_3LE"@,
            Container::S32 => "S32_LE"@,
        }
    }

    pub fn bytes_per_sample(self) -> (n: usize)
        ensures
            n == self.width(),
    {
        match self {
            Container::S16 => 2,
            Container::S24_3 => 3,
            Container::S24 | Container::S32 => 4,
        }
    }

    /// Width in bits of one sample in the container's memory layout.
    pub fn memory_bits(self) -> (n: u32)
        ensures
            n == 8 * self.width(),
    {
        match self {
            Container::S16 => 16,
            Container::S24_3 => 24,
            Container::S24 | Container::S32 => 32,
        }
    }

    /// Number of significant bits the container can carry.
    pub fn significant_bits(self) -> (n: u32)
        ensures
            n == self.depth(),
    {
        match self {
            Container::S16 => 16,
            Container::S24 | Container::S24_3 => 24,
            Container::S32 => 32,
        }
    }

    /// Preferred lossless container for `bits` of content when the sink
    /// accepts everything.
    pub fn for_bits(bits: u8) -> (c: Container)
        ensures
            c == (if bits <= 16 {
                Container::S16
            } else if bits <= 24 {
                Container::S24
            } else {
                Container::S32
            }),
    {
        proof {
            let all = Container::ALL@;
            assert(all[0] == Container::S16 && all[1] == Container::S24 && all[3]
                == Container::S32);
        }
        let all = Container::ALL;
        negotiate(bits, &all).unwrap_or(Container::S32)
    }

    pub fn label(self) -> (s: &'static str)
        ensures
            s@ == self.name(),
    {
        match self {
            Container::S16 => "S16_LE",
            Container::S24 => "S24_LE",
            Container::S24_3 => "S24_3LE",
            Container::S32 => "S32_LE",
        }
    }

    /// The container with the given label.
    pub fn from_label(label: &str) -> (r: Option<Container>)
        ensures
            r == container_named(label@),
    {
        if same_str(label, Container::S16.label()) {
            Some(Container::S16)
        } else if same_str(label, Container::S24.label()) {
            Some(Container::S24)
        } else if same_str(label, Container::S24_3.label()) {
            Some(Container::S24_3)
        } else if same_str(label, Container::S32.label()) {
            Some(Container::S32)
        } else {
            None
        }
    }
}

/// The container with the given label.
pub open spec fn container_named(label: Seq<char>) -> Option<Container> {
    if label == Container::S16.name() {
        Some(Container::S16)
    } else if label == Container::S24.name() {
        Some(Container::S24)
    } else if label == Container::S24_3.name() {
        Some(Container::S24_3)
    } else if label == Container::S32.name() {
        Some(Container::S32)
    } else {
        None
    }
}

/// A container's label leads back to the container, and to no other label
/// does the container answer.
pub proof fn labels_round_trip(c: Container, label: Seq<char>)
    ensures
        container_named(c.name()) == Some(c),
        container_named(label) == Some(c) ==> label == c.name(),
{
    reveal_strlit("S16_LE");
    reveal_strlit("S24_LE");
    reveal_strlit("S24_3LE");
    reveal_strlit("S32_LE");
    assert("S16_LE"@[1] == '1');
    assert("S24_LE"@[1] == '2');
    assert("S24_3LE"@[1] == '2');
    assert("S32_LE"@[1] == '3');
    assert("S24_LE"@.len() == 6);
    assert("S24_3LE"@.len() == 7);
}

/// The containers that carry `content_bits` of content losslessly, most
/// preferred first.
pub open spec fn preferences(content_bits: u8) -> Seq<Container> {
    if content_bits <= 16 {
        seq![Container::S16, Container::S32, Container::S24_3, Container::S24]
    } else if content_bits <= 24 {
        seq![Container::S24, Container::S24_3, Container::S32]
    } else if content_bits <= 32 {
        seq![Container::S32]
    } else {
        Seq::empty()
    }
}

/// The first of `prefs` that `supported` contains.
pub open spec fn first_supported(
    prefs: Seq<Container>,
    supported: Seq<Container>,
) -> Option<Container>
    decreases prefs.len(),
{
    if prefs.len() == 0 {
        None
    } else if supported.contains(prefs[0]) {
        Some(prefs[0])
    } else {
        first_supported(prefs.drop_first(), supported)
    }
}

fn supports(supported: &[Container], c: Container) -> (r: bool)
    ensures
        r == supported@.contains(c),
{
    for i in 0..supported.len()
        invariant
            forall|j: int| 0 <= j < i ==> supported@[j] != c,
    {
        if supported[i] == c {
            assert(supported@[i as int] == c);
            return true;
        }
    }
    false
}

/// Pick the first container, in order of preference, that carries
/// `content_bits` losslessly and that the sink supports. Zero-padding into a
/// wider container is still bit-perfect; truncation never happens.
pub fn negotiate(content_bits: u8, supported: &[Container]) -> (r: Option<Container>)
    ensures
        r == first_supported(preferences(content_bits), supported@),
        r matches Some(c) ==> c.depth() >= content_bits && supported@.contains(c),
        r is None ==> forall|c: Container| #[trigger]
            supported@.contains(c) ==> c.depth() < content_bits,
{
    let mut prefs: Vec<Container> = Vec::new();
    if content_bits <= 16 {
        prefs.push(Container::S16);
        prefs.push(Container::S32);
        prefs.push(Container::S24_3);
        prefs.push(Container::S24);
    } else if content_bits <= 24 {
        prefs.push(Container::S24);
        prefs.push(Container::S24_3);
        prefs.push(Container::S32);
    } else if content_bits <= 32 {
        prefs.push(Container::S32);
    }
    assert(prefs@ == preferences(content_bits));
    assert(prefs@.subrange(0, prefs@.len() as int) == prefs@);
    assert forall|c: Container| c.depth() >= content_bits implies prefs@.contains(c) by {
        match c {
            Container::S16 => assert(prefs@[0] == c),
            Container::S24 => assert(prefs@[if content_bits <= 16 {
                3
            } else {
                0
            }] == c),
            Container::S24_3 => assert(prefs@[if content_bits <= 16 {
                2
            } else {
                1
            }] == c),
            Container::S32 => assert(prefs@[if content_bits <= 16 {
                1
            } else if content_bits <= 24 {
                2
            } else {
                0
            }] == c),
        }
    }
    for i in 0..prefs.len()
        invariant
            prefs@ == preferences(content_bits),
            first_supported(prefs@, supported@) == first_supported(
                prefs@.subrange(i as int, prefs@.len() as int),
                supported@,
            ),
            forall|j: int| 0 <= j < i ==> !supported@.contains(#[trigger] prefs@[j]),
    {
        let ghost rest = prefs@.subrange(i as int, prefs@.len() as int);
        assert(rest[0] == prefs@[i as int]);
        assert(rest.drop_first() == prefs@.subrange(i + 1, prefs@.len() as int));
        if supports(supported, prefs[i]) {
            return Some(prefs[i]);
        }
    }
    None
}

/// Byte `k` of the two's complement little-endian notation of `v`.
pub open spec fn le_byte(v: int, k: nat) -> u8 {
    (if k == 0 {
        v % 256
    } else if k == 1 {
        (v / 0x100) % 256
    } else if k == 2 {
        (v / 0x1_0000) % 256
    } else {
        (v / 0x100_0000) % 256
    }) as u8
}

/// How far content of `content_bits` is shifted up in a container.
pub open spec fn padding(container: Container, content_bits: u8) -> nat {
    if container.depth() >= content_bits {
        (container.depth() - content_bits) as nat
    } else {
        0
    }
}

/// The container's bytes for one sample: the sample shifted up to the
/// container's significant width, little-endian.
pub open spec fn sample_bytes(sample: i32, container: Container, content_bits: u8) -> Seq<u8> {
    let v = sample * pow2(padding(container, content_bits)) as int;
    Seq::new(container.width(), |k: int| le_byte(v, k as nat))
}

/// The container's bytes for a sequence of samples.
pub open spec fn container_bytes(
    samples: Seq<i32>,
    container: Container,
    content_bits: u8,
) -> Seq<u8>
    decreases samples.len(),
{
    if samples.len() == 0 {
        Seq::empty()
    } else {
        container_bytes(samples.drop_last(), container, content_bits) + sample_bytes(
            samples.last(),
            container,
            content_bits,
        )
    }
}

/// Two to the `n`.
pub(crate) fn power_of_two(n: u32) -> (r: i64)
    requires
        n < 32,
    ensures
        r == pow2(n as nat),
        0 < r <= 0x8000_0000,
{
    let mut r: i64 = 1;
    proof {
        lemma2_to64();
    }
    for i in 0..n
        invariant
            n < 32,
            r == pow2(i as nat),
            0 < r <= 0x8000_0000,
    {
        proof {
            vstd::arithmetic::power2::lemma_pow2_unfold((i + 1) as nat);
            lemma2_to64();
            if i + 1 < 31 {
                lemma_pow2_strictly_increases((i + 1) as nat, 31);
            }
        }
        r = r * 2;
    }
    r
}

/// Adding a multiple of 2^32 leaves the four low bytes as they are.
proof fn lemma_low_bytes(v: int, w: int)
    requires
        w == v + 0x4000_0000_0000_0000,
    ensures
        (w % 256) as u8 == le_byte(v, 0),
        ((w / 0x100) % 256) as u8 == le_byte(v, 1),
        ((w / 0x1_0000) % 256) as u8 == le_byte(v, 2),
        ((w / 0x100_0000) % 256) as u8 == le_byte(v, 3),
{
    assert(w / 0x100 == v / 0x100 + 0x40_0000_0000_0000);
    assert(w / 0x1_0000 == v / 0x1_0000 + 0x4000_0000_0000);
    assert(w / 0x100_0000 == v / 0x100_0000 + 0x40_0000_0000);
}

/// Convert interleaved LSB-aligned i32 samples (with `content_bits` effective
/// depth) into the little-endian container bytes and append to `out`.
///
/// Lossless by construction: content is shifted up to the container's
/// significant width (zero-filled LSBs), never truncated or rounded. Callers
/// must have negotiated a container with `significant_bits() >= content_bits`.
pub fn append_container(
    out: &mut Vec<u8>,
    samples: &[i32],
    container: Container,
    content_bits: u8,
)
    requires
        padding(container, content_bits) < 32,
    ensures
        final(out)@ == old(out)@ + container_bytes(samples@, container, content_bits),
{
    let shift: u32 = container.significant_bits().saturating_sub(content_bits as u32);
    let factor: i64 = power_of_two(shift);
    let width: usize = container.bytes_per_sample();
    let ghost before = out@;
    assert(samples@.subrange(0, 0) == Seq::<i32>::empty());
    for i in 0..samples.len()
        invariant
            factor == pow2(padding(container, content_bits)),
            0 < factor <= 0x8000_0000,
            width == container.width(),
            out@ == before + container_bytes(
                samples@.subrange(0, i as int),
                container,
                content_bits,
            ),
    {
        let s: i32 = samples[i];
        assert(-0x4000_0000_0000_0000 <= s * factor < 0x4000_0000_0000_0000) by (nonlinear_arith)
            requires
                0 < factor <= 0x8000_0000,
                -0x8000_0000 <= s <= 0x7fff_ffff,
        ;
        let v: i64 = (s as i64) * factor;
        // A multiple of 2^32 is added, so that the four low bytes stay the same.
        let w: u64 = (v + 0x4000_0000_0000_0000i64) as u64;
        let ghost prefix = samples@.subrange(0, i as int);
        let ghost done = out@;
        out.push((w % 256) as u8);
        out.push(((w / 0x100) % 256) as u8);
        if width >= 3 {
            out.push(((w / 0x1_0000) % 256) as u8);
        }
        if width >= 4 {
            out.push(((w / 0x100_0000) % 256) as u8);
        }
        proof {
            let one = sample_bytes(s, container, content_bits);
            assert(v == s * pow2(padding(container, content_bits)) as int);
            lemma_low_bytes(v as int, w as int);
            assert(out@.len() == done.len() + one.len());
            assert(out@ == done + one);
            assert(samples@.subrange(0, i + 1).drop_last() == prefix);
            assert(before + container_bytes(prefix, container, content_bits) + one == before + (
            container_bytes(prefix, container, content_bits) + one));
        }
    }
    assert(samples@.subrange(0, samples@.len() as int) == samples@);
}

/// Whether a sample is content of the given depth.
pub open spec fn fits(sample: int, bits: u8) -> bool {
    bits > 0 && -(pow2((bits - 1) as nat) as int) <= sample < pow2((bits - 1) as nat)
}

/// The unsigned number that little-endian bytes denote.
pub open spec fn le_unsigned(b: Seq<u8>) -> int
    decreases b.len(),
{
    if b.len() == 0 {
        0
    } else {
        b[0] + 256 * le_unsigned(b.drop_first())
    }
}

/// The signed number that little-endian bytes denote in two's complement.
pub open spec fn le_signed(b: Seq<u8>) -> int {
    if b.len() > 0 && b.last() >= 128 {
        le_unsigned(b) - pow2(8 * b.len())
    } else {
        le_unsigned(b)
    }
}

proof fn lemma_unsigned_word(v: int, b: Seq<u8>)
    requires
        2 <= b.len() <= 4,
        forall|k: int| 0 <= k < b.len() ==> #[trigger] b[k] == le_byte(v, k as nat),
    ensures
        b.len() == 2 ==> le_unsigned(b) == v % 0x1_0000,
        b.len() == 3 ==> le_unsigned(b) == v % 0x100_0000,
        b.len() == 4 ==> le_unsigned(b) == v % 0x1_0000_0000,
{
    let b1 = b.drop_first();
    let b2 = b1.drop_first();
    assert(le_unsigned(b) == b[0] + 256 * le_unsigned(b1));
    assert(le_unsigned(b1) == b[1] + 256 * le_unsigned(b2));
    let q1 = v / 0x100;
    let q2 = v / 0x1_0000;
    let q3 = v / 0x100_0000;
    assert(q1 / 256 == q2);
    assert(q2 / 256 == q3);
    assert(q3 / 256 == v / 0x1_0000_0000);
    assert(v == 256 * q1 + v % 256);
    assert(q1 == 256 * q2 + q1 % 256);
    assert(q2 == 256 * q3 + q2 % 256);
    if b.len() == 2 {
        assert(b2 == Seq::<u8>::empty());
        assert(le_unsigned(b2) == 0);
    } else {
        let b3 = b2.drop_first();
        assert(le_unsigned(b2) == b[2] + 256 * le_unsigned(b3));
        if b.len() == 3 {
            assert(b3 == Seq::<u8>::empty());
            assert(le_unsigned(b3) == 0);
        } else {
            let b4 = b3.drop_first();
            assert(b4 == Seq::<u8>::empty());
            assert(le_unsigned(b3) == b[3] + 256 * le_unsigned(b4));
        }
    }
}

proof fn lemma_signed_word(v: int, container: Container, b: Seq<u8>)
    requires
        -(pow2((container.depth() - 1) as nat) as int) <= v < pow2((container.depth() - 1) as nat),
        b.len() == container.width(),
        forall|k: int| 0 <= k < b.len() ==> #[trigger] b[k] == le_byte(v, k as nat),
    ensures
        le_signed(b) == v,
{
    lemma2_to64();
    lemma_unsigned_word(v, b);
    if container.width() == 2 {
        assert(b.last() == le_byte(v, 1));
        assert(v / 0x100 < 128);
        assert(v / 0x100 >= -128);
    } else if container.width() == 3 {
        assert(b.last() == le_byte(v, 2));
        assert(v / 0x1_0000 < 128);
        assert(v / 0x1_0000 >= -128);
    } else {
        assert(b.last() == le_byte(v, 3));
        assert(v / 0x100_0000 < 128);
        assert(v / 0x100_0000 >= -128);
    }
}

/// Every container that can carry the content does so exactly: the word on
/// the wire, read as a signed number, is the sample shifted up by the padding.
/// The padding bits are zero, shifting back gives the sample, and the top byte
/// of `S24_LE` extends the sign.
pub proof fn containers_are_lossless(sample: i32, container: Container, bits: u8)
    requires
        fits(sample as int, bits),
        bits <= container.depth(),
    ensures
        le_signed(sample_bytes(sample, container, bits)) == sample * pow2(padding(container, bits)),
        le_signed(sample_bytes(sample, container, bits)) % (pow2(padding(container, bits)) as int)
            == 0,
        le_signed(sample_bytes(sample, container, bits)) / (pow2(padding(container, bits)) as int)
            == sample,
{
    let p = padding(container, bits);
    let f = pow2(p) as int;
    let v = sample * f;
    lemma_pow2_pos(p);
    let half = pow2((bits - 1) as nat) as int;
    lemma_pow2_adds((bits - 1) as nat, p);
    assert(half * f == pow2((container.depth() - 1) as nat));
    assert(-(half * f) <= v < half * f) by (nonlinear_arith)
        requires
            v == sample * f,
            f > 0,
            -half <= sample < half,
    ;
    let b = sample_bytes(sample, container, bits);
    lemma_signed_word(v, container, b);
    vstd::arithmetic::div_mod::lemma_div_multiples_vanish(sample as int, f);
    vstd::arithmetic::div_mod::lemma_mod_multiples_basic(sample as int, f);
    assert(f * sample == sample * f) by (nonlinear_arith);
}

} // verus!
