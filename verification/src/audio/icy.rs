//! Metadata in the audio of an internet radio stream (ICY).

use vstd::prelude::*;
use vstd::slice::slice_subrange;
use vstd::utf8::{decode_utf8, valid_utf8};

use crate::text::{
    chars_of, cut, cut_once, latin1, latin1_chars, rcut, rcut_once, string_of, texts, trim,
    trim_of, utf8_text,
};

verus! {

/// Where a reader of an ICY stream stands.
pub struct IcyState {
    pub metaint: nat,
    /// Audio bytes left before the next metadata length byte.
    pub until_meta: nat,
    /// Metadata bytes still expected.
    pub meta_left: nat,
    /// The metadata block being collected.
    pub meta: Seq<u8>,
    pub in_meta: bool,
}

/// A reader that has read nothing.
pub open spec fn icy_start(metaint: nat) -> IcyState {
    IcyState { metaint, until_meta: metaint, meta_left: 0, meta: Seq::empty(), in_meta: false }
}

/// What comes out of a piece of stream.
pub struct IcyOut {
    pub state: IcyState,
    pub audio: Seq<u8>,
    pub titles: Seq<Seq<char>>,
}

/// One byte of the stream: audio, the length of a metadata block in units of
/// sixteen bytes, or a byte of such a block.
pub open spec fn icy_byte(st: IcyState, b: u8) -> IcyOut {
    if st.in_meta {
        let meta = st.meta.push(b);
        if st.meta_left <= 1 {
            IcyOut {
                state: icy_start(st.metaint),
                audio: Seq::empty(),
                titles: match stream_title(meta) {
                    Some(t) => seq![t],
                    None => Seq::empty(),
                },
            }
        } else {
            IcyOut {
                state: IcyState { meta, meta_left: (st.meta_left - 1) as nat, ..st },
                audio: Seq::empty(),
                titles: Seq::empty(),
            }
        }
    } else if st.until_meta == 0 {
        IcyOut {
            state: if b == 0 {
                IcyState { until_meta: st.metaint, ..st }
            } else {
                IcyState { in_meta: true, meta_left: (b * 16) as nat, ..st }
            },
            audio: Seq::empty(),
            titles: Seq::empty(),
        }
    } else {
        IcyOut {
            state: IcyState { until_meta: (st.until_meta - 1) as nat, ..st },
            audio: seq![b],
            titles: Seq::empty(),
        }
    }
}

/// What comes out of a piece of stream, read from the given state on.
pub open spec fn icy_feed(st: IcyState, input: Seq<u8>) -> IcyOut
    decreases input.len(),
{
    if input.len() == 0 {
        IcyOut { state: st, audio: Seq::empty(), titles: Seq::empty() }
    } else {
        let front = icy_feed(st, input.drop_last());
        let last = icy_byte(front.state, input.last());
        IcyOut {
            state: last.state,
            audio: front.audio + last.audio,
            titles: front.titles + last.titles,
        }
    }
}

/// The metadata block up to its first NUL.
pub open spec fn until_nul(block: Seq<u8>) -> Seq<u8>
    decreases block.len(),
{
    if block.len() == 0 {
        block
    } else {
        let front = until_nul(block.drop_last());
        if front.len() < block.len() - 1 || block.last() == 0 {
            front
        } else {
            block
        }
    }
}

/// The text of a metadata block. Many stations still send Latin-1.
pub open spec fn block_text(block: Seq<u8>) -> Seq<char> {
    if valid_utf8(block) {
        decode_utf8(block)
    } else {
        latin1(block)
    }
}

/// The stream title in the text of a metadata block. Titles may contain
/// quotes: the field ends at the `';` delimiter, or else at the last quote.
pub open spec fn title_in(text: Seq<char>) -> Option<Seq<char>> {
    match cut_once(text, "StreamTitle='"@) {
        None => None,
        Some((_, rest)) => match cut_once(rest, "';"@) {
            Some((title, _)) => Some(trim(title)),
            None => match rcut_once(rest, "'"@) {
                Some((title, _)) => Some(trim(title)),
                None => None,
            },
        },
    }
}

/// The stream title in a metadata block.
pub open spec fn stream_title(block: Seq<u8>) -> Option<Seq<char>> {
    title_in(block_text(until_nul(block)))
}

proof fn lemma_until_nul(block: Seq<u8>, n: int)
    requires
        0 <= n <= block.len(),
        forall|j: int| 0 <= j < n ==> #[trigger] block[j] != 0,
        n < block.len() ==> block[n] == 0,
    ensures
        until_nul(block) == block.subrange(0, n),
    decreases block.len(),
{
    if block.len() > 0 {
        let front = block.drop_last();
        if n == block.len() {
            lemma_until_nul(front, n - 1);
            assert(front.subrange(0, n - 1) == front);
            assert(block.subrange(0, n) == block);
        } else {
            assert forall|j: int| 0 <= j < n implies #[trigger] front[j] != 0 by {
                assert(front[j] == block[j]);
            }
            if n < front.len() {
                assert(front[n] == block[n]);
            }
            lemma_until_nul(front, n);
            assert(front.subrange(0, n) == block.subrange(0, n));
        }
    } else {
        assert(block.subrange(0, n) == block);
    }
}

/// `StreamTitle='Artist - Song';StreamUrl='...';` (padded with NULs).
pub fn parse_stream_title(block: &[u8]) -> (r: Option<String>)
    ensures
        match stream_title(block@) {
            Some(want) => r matches Some(got) && got@ == want,
            None => r is None,
        },
{
    let mut n: usize = 0;
    while n < block.len() && block[n] != 0
        invariant
            n <= block.len(),
            forall|j: int| 0 <= j < n ==> #[trigger] block@[j] != 0,
        decreases block.len() - n,
    {
        n = n + 1;
    }
    proof {
        lemma_until_nul(block@, n as int);
    }
    let body = slice_subrange(block, 0, n);
    let text: Vec<char> = match utf8_text(body) {
        Some(s) => chars_of(s.as_str()),
        None => latin1_chars(body),
    };
    match cut(&text, "StreamTitle='") {
        None => None,
        Some((_, rest)) => match cut(rest, "';") {
            Some((title, _)) => Some(string_of(trim_of(title))),
            None => match rcut(rest, "'") {
                Some((title, _)) => Some(string_of(trim_of(title))),
                None => None,
            },
        },
    }
}

/// Splits an ICY stream into audio bytes and metadata blocks.
pub struct IcyDemux {
    metaint: usize,
    until_meta: usize,
    meta_left: usize,
    meta: Vec<u8>,
    in_meta: bool,
}

impl View for IcyDemux {
    type V = IcyState;

    closed spec fn view(&self) -> IcyState {
        IcyState {
            metaint: self.metaint as nat,
            until_meta: self.until_meta as nat,
            meta_left: self.meta_left as nat,
            meta: self.meta@,
            in_meta: self.in_meta,
        }
    }
}

impl IcyDemux {
    pub fn new(metaint: usize) -> (d: IcyDemux)
        ensures
            d@ == icy_start(metaint as nat),
    {
        IcyDemux { metaint, until_meta: metaint, meta_left: 0, meta: Vec::new(), in_meta: false }
    }

    /// One byte of the stream.
    fn byte(&mut self, b: u8, audio: &mut Vec<u8>, titles: &mut Vec<String>)
        ensures
            final(self)@ == icy_byte(old(self)@, b).state,
            final(audio)@ == old(audio)@ + icy_byte(old(self)@, b).audio,
            texts(final(titles)@) == texts(old(titles)@) + icy_byte(old(self)@, b).titles,
    {
        let ghost before = texts(titles@);
        assert(before + Seq::<Seq<char>>::empty() == before);
        assert(audio@ + Seq::<u8>::empty() == audio@);
        if self.in_meta {
            self.meta.push(b);
            if self.meta_left <= 1 {
                self.in_meta = false;
                self.until_meta = self.metaint;
                self.meta_left = 0;
                if let Some(t) = parse_stream_title(self.meta.as_slice()) {
                    let ghost text = t@;
                    titles.push(t);
                    assert(texts(titles@) == before + seq![text]);
                }
                self.meta.clear();
            } else {
                self.meta_left = self.meta_left - 1;
            }
        } else if self.until_meta == 0 {
            if b == 0 {
                self.until_meta = self.metaint;
            } else {
                self.in_meta = true;
                self.meta_left = b as usize * 16;
            }
        } else {
            self.until_meta = self.until_meta - 1;
            audio.push(b);
        }
    }

    /// Append the audio part of `input` to `audio`; returns completed titles.
    pub fn feed(&mut self, input: &[u8], audio: &mut Vec<u8>) -> (titles: Vec<String>)
        ensures
            final(self)@ == icy_feed(old(self)@, input@).state,
            final(audio)@ == old(audio)@ + icy_feed(old(self)@, input@).audio,
            texts(titles@) == icy_feed(old(self)@, input@).titles,
    {
        let ghost start = self@;
        let ghost before = audio@;
        let mut titles: Vec<String> = Vec::new();
        assert(texts(titles@) == Seq::<Seq<char>>::empty());
        assert(input@.subrange(0, 0) == Seq::<u8>::empty());
        assert(before + Seq::<u8>::empty() == before);
        for i in 0..input.len()
            invariant
                self@ == icy_feed(start, input@.subrange(0, i as int)).state,
                audio@ == before + icy_feed(start, input@.subrange(0, i as int)).audio,
                texts(titles@) == icy_feed(start, input@.subrange(0, i as int)).titles,
        {
            let ghost part = icy_feed(start, input@.subrange(0, i as int));
            let ghost next = input@.subrange(0, i + 1);
            assert(next.drop_last() == input@.subrange(0, i as int));
            assert(next.last() == input@[i as int]);
            let ghost one = icy_byte(self@, input@[i as int]);
            self.byte(input[i], audio, &mut titles);
            assert(before + part.audio + one.audio == before + (part.audio + one.audio));
        }
        assert(input@.subrange(0, input@.len() as int) == input@);
        titles
    }
}

/// Reading a stream in two pieces gives what reading it in one piece gives,
/// wherever it is cut.
pub proof fn feeding_in_pieces(st: IcyState, a: Seq<u8>, b: Seq<u8>)
    ensures
        icy_feed(st, a + b).state == icy_feed(icy_feed(st, a).state, b).state,
        icy_feed(st, a + b).audio == icy_feed(st, a).audio + icy_feed(
            icy_feed(st, a).state,
            b,
        ).audio,
        icy_feed(st, a + b).titles == icy_feed(st, a).titles + icy_feed(
            icy_feed(st, a).state,
            b,
        ).titles,
    decreases b.len(),
{
    if b.len() == 0 {
        assert(a + b == a);
    } else {
        feeding_in_pieces(st, a, b.drop_last());
        assert((a + b).drop_last() == a + b.drop_last());
        assert((a + b).last() == b.last());
    }
}

/// Audio bytes before the next length byte come out as they are.
pub proof fn audio_passes_through(st: IcyState, audio: Seq<u8>)
    requires
        !st.in_meta,
        audio.len() <= st.until_meta,
    ensures
        icy_feed(st, audio).audio == audio,
        icy_feed(st, audio).titles == Seq::<Seq<char>>::empty(),
        icy_feed(st, audio).state == (IcyState {
            until_meta: (st.until_meta - audio.len()) as nat,
            ..st
        }),
    decreases audio.len(),
{
    if audio.len() > 0 {
        audio_passes_through(st, audio.drop_last());
        assert(audio.drop_last() + seq![audio.last()] == audio);
    }
}

proof fn lemma_meta_collects(st: IcyState, block: Seq<u8>)
    requires
        st.in_meta,
        block.len() < st.meta_left,
    ensures
        icy_feed(st, block).audio == Seq::<u8>::empty(),
        icy_feed(st, block).titles == Seq::<Seq<char>>::empty(),
        icy_feed(st, block).state == (IcyState {
            meta: st.meta + block,
            meta_left: (st.meta_left - block.len()) as nat,
            ..st
        }),
    decreases block.len(),
{
    if block.len() > 0 {
        lemma_meta_collects(st, block.drop_last());
        assert(st.meta + block == (st.meta + block.drop_last()).push(block.last()));
    } else {
        assert(st.meta + block == st.meta);
    }
}

/// One round of a stream: as many audio bytes as the interval says, a length
/// byte, and a metadata block of that length. The audio comes out without the
/// metadata, the block's title is reported, and the next round begins.
pub proof fn a_round_is_demultiplexed(metaint: nat, audio: Seq<u8>, len: u8, block: Seq<u8>)
    requires
        audio.len() == metaint,
        block.len() == len * 16,
    ensures
        icy_feed(icy_start(metaint), audio + seq![len] + block).audio == audio,
        icy_feed(icy_start(metaint), audio + seq![len] + block).state == icy_start(metaint),
        len == 0 ==> icy_feed(icy_start(metaint), audio + seq![len] + block).titles == Seq::<
            Seq<char>,
        >::empty(),
        len > 0 ==> icy_feed(icy_start(metaint), audio + seq![len] + block).titles == (
        match stream_title(block) {
            Some(t) => seq![t],
            None => Seq::empty(),
        }),
{
    let st = icy_start(metaint);
    audio_passes_through(st, audio);
    let one = seq![len];
    assert(one.drop_last() == Seq::<u8>::empty());
    feeding_in_pieces(st, audio, one);
    let mid = icy_feed(st, audio).state;
    assert(icy_feed(mid, one.drop_last()).state == mid);
    let after = icy_feed(mid, one);
    assert(after.state == icy_byte(mid, len).state);
    assert(after.audio == Seq::<u8>::empty());
    feeding_in_pieces(st, audio + one, block);
    if len == 0 {
        assert(block == Seq::<u8>::empty());
    } else {
        let front = block.drop_last();
        lemma_meta_collects(after.state, front);
        assert(after.state.meta + front == front);
        assert(front.push(block.last()) == block);
    }
}

} // verus!
