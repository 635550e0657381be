//! Lyrics: LRC parsing and current-line lookup.

use vstd::prelude::*;
use vstd::slice::slice_subrange;

use crate::order::{
    ascending, insert_sorted, sort_stable, sorting_is_stable, total_preorder,
};
use crate::text::{
    all_digits, chars_of, copy_str, cut, cut_once, digits_value, index_from, index_of, lines,
    lines_of, lower_all, lower_chars, parse_signed, push_chars, read_signed, same_chars, split,
    split_on, string_of, trim, trim_char_start, trim_char_start_of, trim_of, trim_start,
    trim_start_of, value_of,
};

verus! {

#[derive(Debug)]
pub struct LyricLine {
    pub time_ms: u64,
    pub text: String,
}

/// The contents of a `LyricLine`.
pub struct LineView {
    pub time_ms: u64,
    pub text: Seq<char>,
}

impl View for LyricLine {
    type V = LineView;

    open spec fn view(&self) -> LineView {
        LineView { time_ms: self.time_ms, text: self.text@ }
    }
}

impl Clone for LyricLine {
    fn clone(&self) -> (r: LyricLine)
        ensures
            r == *self,
    {
        LyricLine { time_ms: self.time_ms, text: self.text.clone() }
    }
}

/// The contents of a list of lines.
pub open spec fn line_views(v: Seq<LyricLine>) -> Seq<LineView> {
    Seq::new(v.len(), |i: int| v[i]@)
}

#[derive(Debug, Clone, Copy, PartialEq, Eq, Structural)]
pub enum LyricsSource {
    Lrclib,
    /// Tags embedded in the audio file (for callers that read them).
    Embedded,
    /// A `.lrc` file next to the audio file.
    Sidecar,
}

#[derive(Debug, Clone)]
pub struct Lyrics {
    /// Time-synced lines, sorted by time.
    pub synced: Option<Vec<LyricLine>>,
    pub plain: Option<String>,
    pub source: LyricsSource,
    /// The track is known to have no vocals (both texts are then `None`).
    pub instrumental: bool,
}

// ---------------------------------------------------------------------------
// Time stamps
// ---------------------------------------------------------------------------

/// A fraction of a second in milliseconds: "5" is 500, "05" is 50, "005" is 5;
/// what comes after three digits is dropped.
pub open spec fn fraction_ms(f: Seq<char>) -> int {
    if f.len() == 1 {
        value_of(f) as int * 100
    } else if f.len() == 2 {
        value_of(f) as int * 10
    } else {
        value_of(f.subrange(0, 3)) as int
    }
}

/// The time that minutes, seconds and a fraction come to: seconds have one or
/// two digits and are below sixty.
pub open spec fn stamp_ms(
    min: Seq<char>,
    sec: Seq<char>,
    frac: Option<Seq<char>>,
) -> Option<u64> {
    if !all_digits(min) || !all_digits(sec) || sec.len() > 2 || value_of(sec) >= 60 {
        None
    } else {
        let rest = value_of(sec) * 1000 + (match frac {
            Some(f) => fraction_ms(f),
            None => 0,
        });
        if (frac matches Some(f) && !all_digits(f)) || value_of(min) * 60_000 + rest > u64::MAX {
            None
        } else {
            Some((value_of(min) * 60_000 + rest) as u64)
        }
    }
}

/// The time that a tag such as `mm:ss.xx` gives. `mm:ss:xx` is the legacy form
/// of the fraction.
pub open spec fn timestamp(tag: Seq<char>) -> Option<u64> {
    let parts = split(trim(tag), ':');
    if parts.len() < 2 || parts.len() > 3 {
        None
    } else {
        match cut_once(parts[1], "."@) {
            Some((sec, frac)) => if parts.len() == 2 {
                stamp_ms(parts[0], sec, Some(frac))
            } else {
                None
            },
            None => stamp_ms(
                parts[0],
                parts[1],
                if parts.len() == 3 {
                    Some(parts[2])
                } else {
                    None
                },
            ),
        }
    }
}

proof fn lemma_small_value(s: Seq<char>)
    requires
        all_digits(s),
    ensures
        s.len() == 1 ==> value_of(s) <= 9,
        s.len() == 2 ==> value_of(s) <= 99,
        s.len() == 3 ==> value_of(s) <= 999,
{
    reveal_with_fuel(value_of, 4);
    if s.len() <= 3 {
        assert(crate::text::is_digit(s[0]));
        if s.len() >= 2 {
            assert(crate::text::is_digit(s[1]));
            assert(s.drop_last()[0] == s[0]);
        }
        if s.len() == 3 {
            assert(crate::text::is_digit(s[2]));
            assert(s.drop_last()[1] == s[1]);
            assert(s.drop_last().drop_last()[0] == s[0]);
        }
    }
}

fn parse_fraction(f: &[char]) -> (r: Option<u64>)
    ensures
        match r {
            Some(n) => all_digits(f@) && n == fraction_ms(f@) && n <= 999,
            None => !all_digits(f@),
        },
{
    let n: usize = if f.len() < 3 {
        f.len()
    } else {
        3
    };
    let head = slice_subrange(f, 0, n);
    // Everything behind the third digit only has to be a digit.
    let mut i: usize = 0;
    while i < f.len()
        invariant
            i <= f.len(),
            forall|j: int| 0 <= j < i ==> crate::text::is_digit(#[trigger] f@[j]),
        decreases f.len() - i,
    {
        if !('0' <= f[i] && f[i] <= '9') {
            assert(!crate::text::is_digit(f@[i as int]));
            return None;
        }
        i = i + 1;
    }
    if f.len() == 0 {
        return None;
    }
    proof {
        assert forall|j: int| 0 <= j < head@.len() implies crate::text::is_digit(
            #[trigger] head@[j],
        ) by {
            assert(head@[j] == f@[j]);
        }
        lemma_small_value(head@);
        if f.len() < 3 {
            assert(head@ == f@);
        }
    }
    match digits_value(head, 999) {
        Some(v) => if n == 1 {
            Some(v * 100)
        } else if n == 2 {
            Some(v * 10)
        } else {
            Some(v)
        },
        None => None,
    }
}

fn parse_stamp(min: &[char], sec: &[char], frac: Option<&[char]>) -> (r: Option<u64>)
    ensures
        r == stamp_ms(
            min@,
            sec@,
            match frac {
                Some(f) => Some(f@),
                None => None,
            },
        ),
{
    let m = digits_value(min, u64::MAX);
    if sec.len() > 2 {
        return None;
    }
    let s = match digits_value(sec, 59) {
        Some(s) => s,
        None => {
            return None;
        },
    };
    let f: u64 = match frac {
        None => 0,
        Some(f) => match parse_fraction(f) {
            Some(n) => n,
            None => {
                return None;
            },
        },
    };
    let m = match m {
        Some(m) => m,
        None => {
            return None;
        },
    };
    let rest: u64 = s * 1000 + f;
    if m > (u64::MAX - rest) / 60_000 {
        return None;
    }
    Some(m * 60_000 + rest)
}

/// The time that a tag such as `mm:ss.xx` gives.
pub fn parse_timestamp(tag: &[char]) -> (r: Option<u64>)
    ensures
        r == timestamp(tag@),
{
    let t = trim_of(tag);
    let parts = split_on(t, ':');
    let n = parts.len();
    if n < 2 || n > 3 {
        return None;
    }
    assert(parts@[0]@ == split(t@, ':')[0]);
    assert(parts@[1]@ == split(t@, ':')[1]);
    match cut(&parts[1], ".") {
        Some((sec, frac)) => if n == 2 {
            parse_stamp(&parts[0], sec, Some(frac))
        } else {
            None
        },
        None => if n == 3 {
            assert(parts@[2]@ == split(t@, ':')[2]);
            parse_stamp(&parts[0], &parts[1], Some(parts[2].as_slice()))
        } else {
            parse_stamp(&parts[0], &parts[1], None)
        },
    }
}

// ---------------------------------------------------------------------------
// Lines
// ---------------------------------------------------------------------------

/// The offset after a tag: what an `[offset:±ms]` sets, if it is a number.
pub open spec fn offset_after(tag: Seq<char>, offset: int) -> int {
    match cut_once(tag, ":"@) {
        Some((k, v)) => if lower_all(trim(k)) == "offset"@ {
            match read_signed(trim(v)) {
                Some(n) => n,
                None => offset,
            }
        } else {
            offset
        },
        None => offset,
    }
}

/// What the tags at the front of a line give.
pub struct Tags {
    /// What stands behind the tags.
    pub rest: Seq<char>,
    pub stamps: Seq<u64>,
    pub offset: int,
}

/// Reads the tags at the front of a line. A bracket behind a time stamp that
/// is no time stamp itself is part of the text.
pub open spec fn front_tags(rest: Seq<char>, stamps: Seq<u64>, offset: int) -> Tags
    decreases rest.len(),
{
    let stop = Tags { rest, stamps, offset };
    if rest.len() == 0 || rest[0] != '[' {
        stop
    } else {
        let end = index_from(rest, ']', 1);
        if end < 1 || end >= rest.len() {
            stop
        } else {
            let tag = rest.subrange(1, end);
            let next = trim_start(rest.subrange(end + 1, rest.len() as int));
            if next.len() >= rest.len() {
                stop
            } else {
                match timestamp(tag) {
                    Some(t) => front_tags(next, stamps.push(t), offset),
                    None => if stamps.len() > 0 {
                        stop
                    } else {
                        front_tags(next, stamps, offset_after(tag, offset))
                    },
                }
            }
        }
    }
}

/// A text without enhanced-LRC word stamps (`<mm:ss.xx>`).
pub open spec fn without_word_stamps(s: Seq<char>) -> Seq<char>
    decreases s.len(),
{
    let start = index_from(s, '<', 0);
    if start < 0 || start >= s.len() {
        s
    } else {
        let end = index_from(s, '>', start);
        if end <= start || end >= s.len() {
            s
        } else {
            (if timestamp(s.subrange(start + 1, end)) is Some {
                s.subrange(0, start)
            } else {
                s.subrange(0, end + 1)
            }) + without_word_stamps(s.subrange(end + 1, s.len() as int))
        }
    }
}

proof fn lemma_trim_start_len(s: Seq<char>)
    ensures
        trim_start(s).len() <= s.len(),
    decreases s.len(),
{
    if s.len() > 0 && crate::text::white_space(s[0]) {
        lemma_trim_start_len(s.drop_first());
    }
}

/// What a line says: its tags, read with the byte order mark and the white
/// space around it left out.
pub open spec fn line_tags(raw: Seq<char>, offset: int) -> Tags {
    front_tags(trim(trim_char_start(raw, '\u{feff}')), Seq::empty(), offset)
}

/// Times as they stand in the file, with their texts.
pub open spec fn stamped(stamps: Seq<u64>, text: Seq<char>) -> Seq<(u64, Seq<char>)> {
    Seq::new(stamps.len(), |i: int| (stamps[i], text))
}

/// The timed lines among the first `n`, and the last offset among them.
pub open spec fn timed_lines(ls: Seq<Seq<char>>, n: nat) -> (Seq<(u64, Seq<char>)>, int)
    decreases n,
{
    if n == 0 || n > ls.len() {
        (Seq::empty(), 0)
    } else {
        let (done, offset) = timed_lines(ls, (n - 1) as nat);
        let t = line_tags(ls[n - 1], offset);
        if t.stamps.len() == 0 {
            (done, t.offset)
        } else {
            (done + stamped(t.stamps, trim(without_word_stamps(t.rest))), t.offset)
        }
    }
}

/// A time as a signed machine number.
pub open spec fn signed64(t: u64) -> int {
    if t <= i64::MAX {
        t as int
    } else {
        t - 0x1_0000_0000_0000_0000
    }
}

/// A time with the offset taken off: a positive one shows lyrics earlier, but
/// never before the start.
pub open spec fn shifted(t: u64, offset: int) -> u64 {
    if signed64(t) - offset > 0 {
        (signed64(t) - offset) as u64
    } else {
        0
    }
}

/// Lines with the offset taken off their times.
pub open spec fn shifted_lines(timed: Seq<(u64, Seq<char>)>, offset: int) -> Seq<LineView> {
    Seq::new(
        timed.len(),
        |i: int| LineView { time_ms: shifted(timed[i].0, offset), text: timed[i].1 },
    )
}

/// Orders lines by time.
pub open spec fn time_order() -> spec_fn(LineView, LineView) -> bool {
    |a: LineView, b: LineView| a.time_ms <= b.time_ms
}

/// The lines of an LRC text, sorted by time.
pub open spec fn lrc_lines(input: Seq<char>) -> Seq<LineView> {
    let ls = lines(input);
    let (timed, offset) = timed_lines(ls, ls.len());
    sort_stable(shifted_lines(timed, offset), time_order())
}

fn read_offset(tag: &[char], offset: i64) -> (r: i64)
    ensures
        r == offset_after(tag@, offset as int),
{
    match cut(tag, ":") {
        Some((k, v)) => if same_chars(&lower_chars(trim_of(k)), &chars_of("offset")) {
            match parse_signed(trim_of(v)) {
                Some(n) => n,
                None => offset,
            }
        } else {
            offset
        },
        None => offset,
    }
}

fn read_tags<'a>(line: &'a [char], offset: i64) -> (r: (&'a [char], Vec<u64>, i64))
    ensures
        ({
            let t = front_tags(line@, Seq::empty(), offset as int);
            r.0@ == t.rest && r.1@ == t.stamps && r.2 == t.offset
        }),
{
    let mut rest: &'a [char] = line;
    let mut stamps: Vec<u64> = Vec::new();
    let mut off: i64 = offset;
    let ghost want = front_tags(line@, Seq::empty(), offset as int);
    loop
        invariant
            want == front_tags(rest@, stamps@, off as int),
        ensures
            want == (Tags { rest: rest@, stamps: stamps@, offset: off as int }),
        decreases rest@.len(),
    {
        if rest.len() == 0 || rest[0] != '[' {
            break;
        }
        let end = index_of(rest, ']', 1);
        if end >= rest.len() {
            break;
        }
        let tag = slice_subrange(rest, 1, end);
        let after = slice_subrange(rest, end + 1, rest.len());
        let next = trim_start_of(after);
        proof {
            lemma_trim_start_len(after@);
        }
        match parse_timestamp(tag) {
            Some(t) => {
                stamps.push(t);
            },
            None => {
                if stamps.len() > 0 {
                    break;
                }
                off = read_offset(tag, off);
            },
        }
        rest = next;
    }
    (rest, stamps, off)
}

/// A text without enhanced-LRC word stamps (`<mm:ss.xx>`).
pub fn strip_word_stamps(text: &[char]) -> (r: String)
    ensures
        r@ == without_word_stamps(text@),
{
    let mut out = String::new();
    let mut from: usize = 0;
    assert(text@.subrange(0, text@.len() as int) == text@);
    assert(Seq::<char>::empty() + without_word_stamps(text@) == without_word_stamps(text@));
    loop
        invariant
            from <= text.len(),
            out@ + without_word_stamps(text@.subrange(from as int, text@.len() as int))
                == without_word_stamps(text@),
        decreases text.len() - from,
    {
        let rest = slice_subrange(text, from, text.len());
        let ghost before = out@;
        let start = index_of(rest, '<', 0);
        if start >= rest.len() {
            push_chars(&mut out, rest);
            return out;
        }
        let end = index_of(rest, '>', start);
        if end >= rest.len() {
            push_chars(&mut out, rest);
            return out;
        }
        let inner = slice_subrange(rest, start + 1, end);
        let ghost tail = without_word_stamps(rest@.subrange(end + 1, rest@.len() as int));
        if parse_timestamp(inner).is_some() {
            push_chars(&mut out, slice_subrange(rest, 0, start));
            assert(out@ + tail == before + (rest@.subrange(0, start as int) + tail));
        } else {
            push_chars(&mut out, slice_subrange(rest, 0, end + 1));
            assert(out@ + tail == before + (rest@.subrange(0, end + 1) + tail));
        }
        assert(rest@.subrange(end + 1, rest@.len() as int) == text@.subrange(
            from + end + 1,
            text@.len() as int,
        ));
        from = from + end + 1;
    }
}

/// The contents of a list of timed texts.
pub open spec fn timed_views(v: Seq<(u64, String)>) -> Seq<(u64, Seq<char>)> {
    Seq::new(v.len(), |i: int| (v[i].0, v[i].1@))
}

fn push_stamped(timed: &mut Vec<(u64, String)>, stamps: &Vec<u64>, text: &str)
    ensures
        timed_views(final(timed)@) == timed_views(old(timed)@) + stamped(stamps@, text@),
{
    let ghost before = timed_views(timed@);
    assert(before + stamped(stamps@, text@).subrange(0, 0) == before);
    for i in 0..stamps.len()
        invariant
            timed_views(timed@) == before + stamped(stamps@, text@).subrange(0, i as int),
    {
        let ghost now = timed@;
        timed.push((stamps[i], copy_str(text)));
        assert(timed_views(timed@) == timed_views(now).push((stamps@[i as int], text@)));
        assert(before + stamped(stamps@, text@).subrange(0, i + 1) == (before + stamped(
            stamps@,
            text@,
        ).subrange(0, i as int)).push((stamps@[i as int], text@)));
    }
    assert(stamped(stamps@, text@).subrange(0, stamps@.len() as int) == stamped(stamps@, text@));
}

fn shift(t: u64, offset: i64) -> (r: u64)
    ensures
        r == shifted(t, offset as int),
{
    let signed: i128 = if t <= i64::MAX as u64 {
        t as i128
    } else {
        t as i128 - 0x1_0000_0000_0000_0000
    };
    let d: i128 = signed - offset as i128;
    if d > 0 {
        d as u64
    } else {
        0
    }
}

/// Parses LRC text into lines sorted by time.
///
/// Supports `[mm:ss]`, `[mm:ss.x]`, `[mm:ss.xx]`, `[mm:ss.xxx]` (and the
/// legacy `[mm:ss:xx]`), several timestamps on one line, and a global
/// `[offset:±ms]` (positive = lyrics shown earlier, per the LRC convention).
/// Metadata tags (`[ar:]`, `[ti:]`, `[al:]`, `[by:]`, `[length:]`, ...) and
/// lines without timestamps are dropped; enhanced-LRC word stamps
/// (`<mm:ss.xx>`) are stripped from the text. Empty timed lines are kept, as
/// they mark instrumental breaks where the display should clear.
pub fn parse_lrc(input: &str) -> (out: Vec<LyricLine>)
    ensures
        line_views(out@) == lrc_lines(input@),
        in_time_order(out@),
{
    let c = chars_of(input);
    let ls = lines_of(&c);
    let ghost want = lines(input@);
    let mut offset: i64 = 0;
    let mut timed: Vec<(u64, String)> = Vec::new();
    assert(timed_views(timed@) == Seq::<(u64, Seq<char>)>::empty());
    for n in 0..ls.len()
        invariant
            want == lines(input@),
            ls.len() == want.len(),
            forall|j: int| 0 <= j < ls.len() ==> #[trigger] ls@[j]@ == want[j],
            (timed_views(timed@), offset as int) == timed_lines(want, n as nat),
    {
        assert(ls@[n as int]@ == want[n as int]);
        let body = trim_of(trim_char_start_of(&ls[n], '\u{feff}'));
        let (rest, stamps, off) = read_tags(body, offset);
        offset = off;
        if stamps.len() > 0 {
            let stripped = strip_word_stamps(rest);
            let text = string_of(trim_of(&chars_of(stripped.as_str())));
            push_stamped(&mut timed, &stamps, text.as_str());
        }
    }
    let out = sort_lines(timed, offset);
    proof {
        let (t, o) = timed_lines(want, want.len());
        assert(line_views(out@) == lrc_lines(input@));
        lrc_lines_ascend(input@);
        lemma_views_in_order(out@);
    }
    out
}

fn line_le(a: &LyricLine, b: &LyricLine) -> (r: bool)
    ensures
        r == (a.time_ms <= b.time_ms),
{
    a.time_ms <= b.time_ms
}

fn sort_lines(timed: Vec<(u64, String)>, offset: i64) -> (out: Vec<LyricLine>)
    ensures
        line_views(out@) == sort_stable(
            shifted_lines(timed_views(timed@), offset as int),
            time_order(),
        ),
{
    let ghost all = shifted_lines(timed_views(timed@), offset as int);
    let mut out: Vec<LyricLine> = Vec::new();
    assert(all.subrange(0, 0) == Seq::<LineView>::empty());
    assert(line_views(out@) == Seq::<LineView>::empty());
    for n in 0..timed.len()
        invariant
            all == shifted_lines(timed_views(timed@), offset as int),
            line_views(out@) == sort_stable(all.subrange(0, n as int), time_order()),
    {
        let line = LyricLine { time_ms: shift(timed[n].0, offset), text: timed[n].1.clone() };
        let ghost x = line@;
        let ghost before = out@;
        let ghost view = |l: LyricLine| l@;
        assert(x == all[n as int]);
        assert(all.subrange(0, n + 1).drop_last() == all.subrange(0, n as int));
        insert_sorted::<_, LineView, _>(
            &mut out,
            line,
            line_le,
            Ghost(view),
            Ghost(time_order()),
        );
        assert(before.map_values(view) == line_views(before));
        assert(out@.map_values(view) == line_views(out@));
    }
    assert(all.subrange(0, all.len() as int) == all);
    out
}

/// Whether lines are sorted by time.
pub open spec fn in_time_order(lines: Seq<LyricLine>) -> bool {
    forall|i: int, j: int|
        0 <= i < j < lines.len() ==> (#[trigger] lines[i]).time_ms <= (#[trigger] lines[j]).time_ms
}

proof fn lemma_views_in_order(lines: Seq<LyricLine>)
    requires
        ascending(line_views(lines), time_order()),
    ensures
        in_time_order(lines),
{
    assert forall|i: int, j: int| 0 <= i < j < lines.len() implies (#[trigger] lines[i]).time_ms
        <= (#[trigger] lines[j]).time_ms by {
        assert(time_order()(line_views(lines)[i], line_views(lines)[j]));
    }
}

/// The lines of an LRC text come out in ascending order of time; those of one
/// time keep the order of the file; none is lost or added.
pub proof fn lrc_lines_ascend(input: Seq<char>)
    ensures
        ascending(lrc_lines(input), time_order()),
        ({
            let ls = lines(input);
            let (timed, offset) = timed_lines(ls, ls.len());
            lrc_lines(input).to_multiset() == shifted_lines(timed, offset).to_multiset()
        }),
        forall|k: LineView|
            #![trigger crate::order::ranked(lrc_lines(input), time_order(), k)]
            ({
                let ls = lines(input);
                let (timed, offset) = timed_lines(ls, ls.len());
                crate::order::ranked(lrc_lines(input), time_order(), k) == crate::order::ranked(
                    shifted_lines(timed, offset),
                    time_order(),
                    k,
                )
            }),
{
    let ls = lines(input);
    let (timed, offset) = timed_lines(ls, ls.len());
    assert(total_preorder(time_order()));
    sorting_is_stable(shifted_lines(timed, offset), time_order());
}

// ---------------------------------------------------------------------------
// What a text comes to
// ---------------------------------------------------------------------------

/// The timed lines that a line of a file adds.
pub open spec fn line_adds(raw: Seq<char>) -> Seq<(u64, Seq<char>)> {
    let t = line_tags(raw, 0);
    stamped(t.stamps, trim(without_word_stamps(t.rest)))
}

/// How many time stamps the first `n` lines begin with.
pub open spec fn stamp_count(ls: Seq<Seq<char>>, n: nat) -> nat
    decreases n,
{
    if n == 0 || n > ls.len() {
        0
    } else {
        stamp_count(ls, (n - 1) as nat) + line_tags(ls[n - 1], 0).stamps.len()
    }
}

/// Whether a line leaves the offset as it is.
pub open spec fn sets_no_offset(raw: Seq<char>) -> bool {
    forall|o: int| #[trigger] line_tags(raw, o).offset == o
}

proof fn lemma_tags_without_offset(rest: Seq<char>, stamps: Seq<u64>, a: int, b: int)
    ensures
        front_tags(rest, stamps, a).stamps == front_tags(rest, stamps, b).stamps,
        front_tags(rest, stamps, a).rest == front_tags(rest, stamps, b).rest,
    decreases rest.len(),
{
    if rest.len() > 0 && rest[0] == '[' {
        let end = index_from(rest, ']', 1);
        if 1 <= end < rest.len() {
            let tag = rest.subrange(1, end);
            let next = trim_start(rest.subrange(end + 1, rest.len() as int));
            if next.len() < rest.len() {
                match timestamp(tag) {
                    Some(t) => lemma_tags_without_offset(next, stamps.push(t), a, b),
                    None => if stamps.len() == 0 {
                        lemma_tags_without_offset(
                            next,
                            stamps,
                            offset_after(tag, a),
                            offset_after(tag, b),
                        );
                    },
                }
            }
        }
    }
}

/// The timed lines among the first `n` are what each of them adds.
proof fn lemma_timed_step(ls: Seq<Seq<char>>, n: nat)
    requires
        0 < n <= ls.len(),
    ensures
        timed_lines(ls, n).0 == timed_lines(ls, (n - 1) as nat).0 + line_adds(ls[n - 1]),
        timed_lines(ls, n).1 == line_tags(ls[n - 1], timed_lines(ls, (n - 1) as nat).1).offset,
{
    let (done, offset) = timed_lines(ls, (n - 1) as nat);
    let body = trim(trim_char_start(ls[n - 1], '\u{feff}'));
    lemma_tags_without_offset(body, Seq::empty(), offset, 0);
    if line_tags(ls[n - 1], 0).stamps.len() == 0 {
        assert(done + line_adds(ls[n - 1]) == done);
    }
}

proof fn lemma_timed_holds(ls: Seq<Seq<char>>, n: nat)
    requires
        n <= ls.len(),
    ensures
        timed_lines(ls, n).0.len() == stamp_count(ls, n),
        forall|i: int, k: int|
            #![trigger line_adds(ls[i])[k]]
            0 <= i < n && 0 <= k < line_adds(ls[i]).len() ==> timed_lines(ls, n).0.contains(
                line_adds(ls[i])[k],
            ),
    decreases n,
{
    if n > 0 {
        let m = (n - 1) as nat;
        lemma_timed_holds(ls, m);
        lemma_timed_step(ls, n);
        let before = timed_lines(ls, m).0;
        let all = timed_lines(ls, n).0;
        assert forall|i: int, k: int|
            #![trigger line_adds(ls[i])[k]]
            0 <= i < n && 0 <= k < line_adds(ls[i]).len() implies all.contains(
            line_adds(ls[i])[k],
        ) by {
            let x = line_adds(ls[i])[k];
            if i < m {
                let at = choose|at: int| 0 <= at < before.len() && before[at] == x;
                assert(all[at] == x);
            } else {
                assert(all[before.len() + k] == x);
            }
        }
    }
}

/// Each time stamp at the front of a line comes to one line, with the text
/// that follows; lines without one add nothing.
pub proof fn each_stamp_gives_a_line(input: Seq<char>)
    ensures
        lrc_lines(input).len() == stamp_count(lines(input), lines(input).len()),
        forall|i: int, k: int|
            #![trigger line_adds(lines(input)[i])[k]]
            0 <= i < lines(input).len() && 0 <= k < line_adds(lines(input)[i]).len()
                ==> lrc_lines(input).contains(
                LineView {
                    time_ms: shifted(
                        line_adds(lines(input)[i])[k].0,
                        timed_lines(lines(input), lines(input).len()).1,
                    ),
                    text: line_adds(lines(input)[i])[k].1,
                },
            ),
{
    broadcast use vstd::seq_lib::group_to_multiset_ensures;

    let ls = lines(input);
    let (timed, offset) = timed_lines(ls, ls.len());
    let all = shifted_lines(timed, offset);
    lemma_timed_holds(ls, ls.len());
    lrc_lines_ascend(input);
    assert(lrc_lines(input).to_multiset().len() == lrc_lines(input).len());
    assert(all.to_multiset().len() == all.len());
    assert forall|i: int, k: int|
        #![trigger line_adds(ls[i])[k]]
        0 <= i < ls.len() && 0 <= k < line_adds(ls[i]).len() implies lrc_lines(input).contains(
        LineView { time_ms: shifted(line_adds(ls[i])[k].0, offset), text: line_adds(ls[i])[k].1 },
    ) by {
        let x = line_adds(ls[i])[k];
        let at = choose|at: int| 0 <= at < timed.len() && timed[at] == x;
        assert(all[at] == (LineView { time_ms: shifted(x.0, offset), text: x.1 }));
        assert(all.contains(all[at]));
        assert(all.to_multiset().contains(all[at]));
        assert(lrc_lines(input).to_multiset().contains(all[at]));
    }
}

proof fn lemma_timed_without(ls: Seq<Seq<char>>, i: int, n: nat)
    requires
        0 <= i < ls.len(),
        n <= ls.len(),
        line_tags(ls[i], 0).stamps.len() == 0,
        forall|k: int| 0 <= k < ls.len() && k != i ==> sets_no_offset(#[trigger] ls[k]),
    ensures
        n <= i ==> timed_lines(ls, n) == (timed_lines(ls.remove(i), n).0, 0int),
        n > i ==> timed_lines(ls, n) == (
            timed_lines(ls.remove(i), (n - 1) as nat).0,
            line_tags(ls[i], 0).offset,
        ),
    decreases n,
{
    let left = ls.remove(i);
    if n > 0 {
        let m = (n - 1) as nat;
        lemma_timed_without(ls, i, m);
        lemma_timed_step(ls, n);
        if m < i {
            assert(left[m as int] == ls[m as int]);
            lemma_timed_step(left, n);
            assert(sets_no_offset(ls[m as int]));
        } else if m == i {
            assert(timed_lines(ls, m).0 + line_adds(ls[i]) == timed_lines(ls, m).0);
        } else {
            assert(left[m - 1] == ls[m as int]);
            lemma_timed_step(left, m);
            assert(sets_no_offset(ls[m as int]));
        }
    }
}

/// The offset is global: its line may stand anywhere. Moving the only line
/// that sets it changes nothing.
pub proof fn the_offset_may_stand_anywhere(a: Seq<char>, b: Seq<char>, i: int, j: int)
    requires
        0 <= i < lines(a).len(),
        0 <= j < lines(a).len(),
        lines(b) == lines(a).remove(i).insert(j, lines(a)[i]),
        line_tags(lines(a)[i], 0).stamps.len() == 0,
        forall|k: int|
            0 <= k < lines(a).len() && k != i ==> sets_no_offset(#[trigger] lines(a)[k]),
    ensures
        lrc_lines(b) == lrc_lines(a),
{
    let la = lines(a);
    let lb = lines(b);
    let o = la[i];
    let left = la.remove(i);
    assert(lb.remove(j) == left);
    assert(lb[j] == o);
    assert forall|k: int| 0 <= k < lb.len() && k != j implies sets_no_offset(#[trigger] lb[k]) by {
        let at = if k < j {
            k
        } else {
            k - 1
        };
        assert(lb[k] == left[at]);
        assert(left[at] == la[if at < i {
            at
        } else {
            at + 1
        }]);
    }
    lemma_timed_without(la, i, la.len());
    lemma_timed_without(lb, j, lb.len());
}

/// A larger offset never shows a line later.
pub proof fn offset_shows_earlier(t: u64, a: int, b: int)
    requires
        i64::MIN <= a <= b <= i64::MAX,
    ensures
        shifted(t, b) <= shifted(t, a),
{
}

/// Index of the line being sung at `pos_ms` (last line starting at or
/// before it), or `None` before the first line. `lines` must be sorted.
pub fn line_at(lines: &[LyricLine], pos_ms: u64) -> (r: Option<usize>)
    requires
        in_time_order(lines@),
    ensures
        match r {
            Some(i) => i < lines@.len() && lines@[i as int].time_ms <= pos_ms && forall|j: int|
                i < j < lines@.len() ==> (#[trigger] lines@[j]).time_ms > pos_ms,
            None => forall|j: int|
                0 <= j < lines@.len() ==> (#[trigger] lines@[j]).time_ms > pos_ms,
        },
{
    let mut lo: usize = 0;
    let mut hi: usize = lines.len();
    while lo < hi
        invariant
            lo <= hi <= lines.len(),
            in_time_order(lines@),
            forall|j: int| 0 <= j < lo ==> (#[trigger] lines@[j]).time_ms <= pos_ms,
            forall|j: int| hi <= j < lines@.len() ==> (#[trigger] lines@[j]).time_ms > pos_ms,
        decreases hi - lo,
    {
        let mid: usize = lo + (hi - lo) / 2;
        if lines[mid].time_ms <= pos_ms {
            lo = mid + 1;
        } else {
            hi = mid;
        }
    }
    if lo == 0 {
        None
    } else {
        Some(lo - 1)
    }
}

} // verus!
