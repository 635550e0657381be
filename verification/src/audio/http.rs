//! HTTP(S) media sources.
//!
//! * Known `Content-Length`: the body is spooled to a temp file in the
//!   background; the reader is seekable and waits until the bytes it needs
//!   have arrived. Memory stays bounded whatever the file size.
//! * Unknown length (internet radio): a forward-only reader fed in chunks,
//!   with ICY metadata stripped from the audio and stream titles published
//!   separately.

use vstd::prelude::*;
use vstd::slice::slice_subrange;

use crate::audio::icy::{icy_feed, IcyDemux};
use crate::paths::{join_path, joined};
use crate::text::{
    chars_of, copy_str, dec, is_digit, lemma_dec_digits, lemma_index, lower_all, lower_chars,
    numbers_survive, parse_unsigned, push_dec, read_unsigned, same_chars, split, split_on,
    starts_with, starts_with_chars, texts, trim, trim_of,
};

verus! {

/// Bytes read from the network at a time.
pub const CHUNK: usize = 65536;

/// Live streams: at most this much read ahead of the decoder.
pub const LIVE_BUFFER: usize = 8388608;

/// How the body of a response is read.
#[derive(Debug, Clone, Copy, PartialEq, Eq, Structural)]
pub enum BodyPlan {
    /// Spooled to a file of the given length; seekable.
    Spool { len: u64 },
    /// Forward only, with metadata every so many bytes where there is any.
    Live { metaint: Option<usize> },
}

/// The metadata interval that the `icy-metaint` header gives.
pub open spec fn metaint_of(header: Option<Seq<char>>) -> Option<usize> {
    match header {
        Some(v) => match read_unsigned(trim(v), usize::MAX as nat) {
            Some(n) => if n > 0 {
                Some(n as usize)
            } else {
                None
            },
            None => None,
        },
        None => None,
    }
}

/// The length that the `content-length` header gives.
pub open spec fn length_of(header: Option<Seq<char>>) -> Option<u64> {
    match header {
        Some(v) => match read_unsigned(trim(v), u64::MAX as nat) {
            Some(n) => Some(n as u64),
            None => None,
        },
        None => None,
    }
}

/// A transfer-encoded body makes `Content-Length` meaningless for offsets, and
/// so does metadata between the audio.
pub open spec fn body_plan(
    metaint: Option<Seq<char>>,
    encoding: Option<Seq<char>>,
    length: Option<Seq<char>>,
) -> BodyPlan {
    let identity = match encoding {
        Some(e) => lower_all(e) == "identity"@,
        None => true,
    };
    match (metaint_of(metaint), length_of(length)) {
        (None, Some(len)) => if identity {
            BodyPlan::Spool { len }
        } else {
            BodyPlan::Live { metaint: None }
        },
        (m, _) => BodyPlan::Live { metaint: m },
    }
}

/// The text behind an optional string slice.
pub open spec fn header_text(h: Option<&str>) -> Option<Seq<char>> {
    match h {
        Some(s) => Some(s@),
        None => None,
    }
}

/// How to read the body of a response with the given headers.
pub fn plan_body(
    metaint: Option<&str>,
    encoding: Option<&str>,
    length: Option<&str>,
) -> (p: BodyPlan)
    ensures
        p == body_plan(header_text(metaint), header_text(encoding), header_text(length)),
{
    let interval: Option<usize> = match metaint {
        Some(v) => match parse_unsigned(trim_of(&chars_of(v)), usize::MAX as u64) {
            Some(n) => if n > 0 {
                Some(n as usize)
            } else {
                None
            },
            None => None,
        },
        None => None,
    };
    let identity = match encoding {
        Some(e) => same_chars(&lower_chars(&chars_of(e)), &chars_of("identity")),
        None => true,
    };
    let len: Option<u64> = match length {
        Some(v) => parse_unsigned(trim_of(&chars_of(v)), u64::MAX),
        None => None,
    };
    match (interval, len) {
        (None, Some(len)) => if identity {
            BodyPlan::Spool { len }
        } else {
            BodyPlan::Live { metaint: None }
        },
        (m, _) => BodyPlan::Live { metaint: m },
    }
}

// ---------------------------------------------------------------------------
// spool
// ---------------------------------------------------------------------------

/// Where spool files go, from the values of `XDG_CACHE_HOME` and `HOME`.
pub open spec fn spool_base(
    cache_home: Option<Seq<char>>,
    home: Option<Seq<char>>,
) -> Option<Seq<char>> {
    let base = match cache_home {
        Some(c) => if c.len() > 0 {
            Some(c)
        } else {
            None
        },
        None => None,
    };
    let base = match base {
        Some(b) => Some(b),
        None => match home {
            Some(h) => Some(joined(h, ".cache"@)),
            None => None,
        },
    };
    match base {
        Some(b) => Some(joined(joined(b, "ricercar"@), "stream"@)),
        None => None,
    }
}

/// The preferred directory for spool files; the system's temporary directory
/// is the caller's fallback.
pub fn spool_dir(cache_home: Option<&str>, home: Option<&str>) -> (r: Option<String>)
    ensures
        match spool_base(header_text(cache_home), header_text(home)) {
            Some(want) => r matches Some(got) && got@ == want,
            None => r is None,
        },
{
    let set: Option<String> = match cache_home {
        Some(c) => if !c.is_empty() {
            Some(copy_str(c))
        } else {
            None
        },
        None => None,
    };
    let base: Option<String> = match set {
        Some(b) => Some(b),
        None => match home {
            Some(h) => Some(join_path(h, ".cache")),
            None => None,
        },
    };
    match base {
        Some(b) => Some(join_path(join_path(b.as_str(), "ricercar").as_str(), "stream")),
        None => None,
    }
}

/// The name of a process's n-th spool file.
pub open spec fn spool_file(pid: u32, n: u64) -> Seq<char> {
    "ricercar-spool-"@ + dec(pid as nat) + "-"@ + dec(n as nat)
}

pub fn spool_name(pid: u32, n: u64) -> (s: String)
    ensures
        s@ == spool_file(pid, n),
{
    let mut s = copy_str("ricercar-spool-");
    push_dec(&mut s, pid as u64);
    s.push_str("-");
    push_dec(&mut s, n);
    s
}

/// The process that a spool file's name gives.
pub open spec fn spool_owner(name: Seq<char>) -> Option<u32> {
    if starts_with(name, "ricercar-spool-"@) {
        match read_unsigned(
            split(name.subrange("ricercar-spool-"@.len() as int, name.len() as int), '-')[0],
            u32::MAX as nat,
        ) {
            Some(n) => Some(n as u32),
            None => None,
        }
    } else {
        None
    }
}

/// The name of a spool file tells the process that wrote it.
pub proof fn spool_names_tell_the_process(pid: u32, n: u64)
    ensures
        spool_owner(spool_file(pid, n)) == Some(pid),
{
    reveal_strlit("ricercar-spool-");
    reveal_strlit("-");
    let prefix = "ricercar-spool-"@;
    let name = spool_file(pid, n);
    let digits = dec(pid as nat);
    let rest = digits + "-"@ + dec(n as nat);
    assert(name == prefix + rest);
    assert(name.subrange(0, prefix.len() as int) == prefix);
    assert(name.subrange(prefix.len() as int, name.len() as int) == rest);
    numbers_survive(pid as nat, u32::MAX as nat);
    lemma_dec_digits(pid as nat);
    assert forall|i: int| 0 <= i < digits.len() implies rest[i] != '-' by {
        assert(is_digit(digits[i]));
    }
    assert(rest[digits.len() as int] == '-');
    lemma_index(rest, '-', 0, digits.len() as int);
    assert(rest.subrange(0, digits.len() as int) == digits);
    assert(split(rest, '-')[0] == digits);
}

/// The process whose spool file has the given name; files of processes that
/// no longer exist are swept.
pub fn spool_pid(name: &str) -> (r: Option<u32>)
    ensures
        r == spool_owner(name@),
{
    let n = chars_of(name);
    let prefix = chars_of("ricercar-spool-");
    if !starts_with_chars(&n, &prefix) {
        return None;
    }
    let pieces = split_on(slice_subrange(&n, prefix.len(), n.len()), '-');
    match parse_unsigned(&pieces[0], u32::MAX as u64) {
        Some(p) => Some(p as u32),
        None => None,
    }
}

/// How far a download has come.
#[derive(Debug)]
pub struct Progress {
    pub downloaded: u64,
    pub done: bool,
    pub error: Option<String>,
}

/// What a reader at some position gets.
#[derive(Debug)]
pub enum SpoolWait {
    /// So many bytes are readable.
    Ready(u64),
    /// The download ended before the position.
    End,
    /// The download failed before the position.
    Failed(String),
    /// The bytes have not arrived yet.
    Wait,
}

/// Where a seek goes.
#[derive(Debug, Clone, Copy, PartialEq, Eq, Structural)]
pub enum SeekTarget {
    Start(u64),
    End(i64),
    Current(i64),
}

/// The position of a reader in a spooled body of known length.
#[derive(Debug, Clone, Copy, PartialEq, Eq, Structural)]
pub struct SpoolReader {
    pub pos: u64,
    pub len: u64,
}

impl SpoolReader {
    pub fn new(len: u64) -> (r: SpoolReader)
        ensures
            r == (SpoolReader { pos: 0, len }),
    {
        SpoolReader { pos: 0, len }
    }

    /// The number of bytes readable at the reader's position, or what else
    /// becomes of the read. An error is reported only before the end that the
    /// server promised.
    pub fn wait_for(&self, progress: &Progress) -> (w: SpoolWait)
        ensures
            if progress.downloaded > self.pos {
                w == SpoolWait::Ready((progress.downloaded - self.pos) as u64)
            } else if !progress.done {
                w is Wait
            } else {
                match progress.error {
                    Some(e) => if self.pos < self.len {
                        w matches SpoolWait::Failed(m) && m@ == e@
                    } else {
                        w is End
                    },
                    None => w is End,
                }
            },
    {
        if progress.downloaded > self.pos {
            return SpoolWait::Ready(progress.downloaded - self.pos);
        }
        if !progress.done {
            return SpoolWait::Wait;
        }
        match &progress.error {
            Some(e) => if self.pos < self.len {
                SpoolWait::Failed(e.clone())
            } else {
                SpoolWait::End
            },
            None => SpoolWait::End,
        }
    }

    /// How many bytes to read into a buffer of the given size.
    pub fn span(out_len: usize, avail: u64) -> (n: usize)
        ensures
            n == (if out_len as u64 <= avail {
                out_len as int
            } else {
                avail as int
            }),
    {
        if out_len as u64 <= avail {
            out_len
        } else {
            avail as usize
        }
    }

    /// So many bytes were read.
    pub fn advance(&mut self, n: usize)
        requires
            old(self).pos + n <= u64::MAX,
        ensures
            final(self).pos == old(self).pos + n,
            final(self).len == old(self).len,
    {
        self.pos = self.pos + n as u64;
    }

    /// Seeks; a position before the start or out of range is refused, and the
    /// reader stays where it is. Positions behind the end are allowed.
    pub fn seek(&mut self, to: SeekTarget) -> (r: Option<u64>)
        ensures
            ({
                let target = match to {
                    SeekTarget::Start(p) => p as int,
                    SeekTarget::End(d) => old(self).len + d,
                    SeekTarget::Current(d) => old(self).pos + d,
                };
                if 0 <= target <= u64::MAX {
                    r == Some(target as u64) && *final(self) == (SpoolReader {
                        pos: target as u64,
                        len: old(self).len,
                    })
                } else {
                    r is None && *final(self) == *old(self)
                }
            }),
    {
        let target = match to {
            SeekTarget::Start(p) => Some(p),
            SeekTarget::End(d) => self.len.checked_add_signed(d),
            SeekTarget::Current(d) => self.pos.checked_add_signed(d),
        };
        if let Some(p) = target {
            self.pos = p;
        }
        target
    }
}

// ---------------------------------------------------------------------------
// live
// ---------------------------------------------------------------------------

/// The audio and the stream titles in a piece of a live body.
pub fn live_chunk(demux: &mut Option<IcyDemux>, bytes: &[u8]) -> (r: (Vec<u8>, Vec<String>))
    ensures
        match *old(demux) {
            Some(d) => {
                let out = icy_feed(d@, bytes@);
                &&& *final(demux) matches Some(e)
                &&& e@ == out.state
                &&& r.0@ == out.audio
                &&& texts(r.1@) == out.titles
            },
            None => *final(demux) is None && r.0@ == bytes@ && r.1@.len() == 0,
        },
{
    match demux {
        Some(d) => {
            let mut audio: Vec<u8> = Vec::new();
            let titles = d.feed(bytes, &mut audio);
            (audio, titles)
        },
        None => (copy_bytes(bytes), Vec::new()),
    }
}

fn copy_bytes(b: &[u8]) -> (v: Vec<u8>)
    ensures
        v@ == b@,
{
    let mut v: Vec<u8> = Vec::new();
    for i in 0..b.len()
        invariant
            v@ == b@.subrange(0, i as int),
    {
        v.push(b[i]);
        assert(b@.subrange(0, i + 1) == b@.subrange(0, i as int).push(b@[i as int]));
    }
    assert(b@.subrange(0, b@.len() as int) == b@);
    v
}

/// A forward-only reader of chunks.
#[derive(Debug)]
pub struct LiveReader {
    buf: Vec<u8>,
    off: usize,
}

impl LiveReader {
    /// The reader stands within its chunk.
    #[verifier::type_invariant]
    closed spec fn inv(&self) -> bool {
        self.off <= self.buf.len()
    }

    /// The bytes of the current chunk that have not been read.
    pub closed spec fn rest(&self) -> Seq<u8> {
        self.buf@.subrange(self.off as int, self.buf@.len() as int)
    }

    pub fn new() -> (r: LiveReader)
        ensures
            r.rest() == Seq::<u8>::empty(),
    {
        let r = LiveReader { buf: Vec::new(), off: 0 };
        assert(r.rest() == Seq::<u8>::empty());
        r
    }

    /// Whether a new chunk is needed before anything can be read.
    pub fn is_drained(&self) -> (r: bool)
        ensures
            r == (self.rest().len() == 0),
    {
        proof {
            use_type_invariant(self);
        }
        self.off >= self.buf.len()
    }

    /// Takes the next chunk, once the last one is used up.
    pub fn refill(&mut self, chunk: Vec<u8>)
        requires
            old(self).rest().len() == 0,
        ensures
            final(self).rest() == chunk@,
    {
        *self = LiveReader { buf: chunk, off: 0 };
        assert(self.rest() == self.buf@);
    }

    /// Reads up to `cap` bytes. Nothing is lost, repeated or reordered.
    pub fn read(&mut self, cap: usize) -> (out: Vec<u8>)
        ensures
            out@ + final(self).rest() == old(self).rest(),
            out@.len() == (if cap <= old(self).rest().len() {
                cap as nat
            } else {
                old(self).rest().len()
            }),
    {
        proof {
            use_type_invariant(&*self);
        }
        let left: usize = self.buf.len() - self.off;
        let n: usize = if cap <= left {
            cap
        } else {
            left
        };
        let ghost before = self.rest();
        let out = copy_bytes(slice_subrange(self.buf.as_slice(), self.off, self.off + n));
        self.off = self.off + n;
        assert(out@ + self.rest() == before);
        out
    }
}

} // verus!
