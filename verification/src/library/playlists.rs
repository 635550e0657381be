//! Playlists as lists of paths, and M3U files.

use vstd::prelude::*;

use crate::paths::{join_path, joined};
use crate::text::{
    chars_of, chomp, copy_str, dec, index_from, lemma_dec_digits, lemma_index, lines, lines_of, push_dec,
    push_text, same_str, split, split_from, string_of, texts, trim, trim_end, trim_of, trim_start,
    white_space,
};
use crate::uri::{path_of, uri_to_path};

verus! {

/// The paths of a playlist with more added at its end.
pub fn added(all: Vec<String>, more: Vec<String>) -> (r: Vec<String>)
    ensures
        r@ == all@ + more@,
{
    let mut r = all;
    let mut m = more;
    r.append(&mut m);
    r
}

/// How many of the first `n` entries a list shows that holds what is visible.
pub open spec fn shown_among(all: Seq<Seq<char>>, visible: Seq<Seq<char>>, n: nat) -> nat
    decreases n,
{
    if n == 0 || n > all.len() {
        0
    } else if visible.contains(all[n - 1]) {
        shown_among(all, visible, (n - 1) as nat) + 1
    } else {
        shown_among(all, visible, (n - 1) as nat)
    }
}

/// Whether a number is among some positions.
pub open spec fn is_among(at: Seq<usize>, k: nat) -> bool {
    exists|j: int| 0 <= j < at.len() && #[trigger] at[j] == k
}

/// Whether the entry at `i` is visible and shown at one of the positions.
pub open spec fn is_picked(
    all: Seq<Seq<char>>,
    visible: Seq<Seq<char>>,
    at: Seq<usize>,
    i: int,
) -> bool {
    visible.contains(all[i]) && is_among(at, shown_among(all, visible, i as nat))
}

/// The first `n` entries without those shown at the given positions.
pub open spec fn without_positions(
    all: Seq<Seq<char>>,
    visible: Seq<Seq<char>>,
    at: Seq<usize>,
    n: nat,
) -> Seq<Seq<char>>
    decreases n,
{
    if n == 0 || n > all.len() {
        Seq::empty()
    } else {
        let before = without_positions(all, visible, at, (n - 1) as nat);
        if is_picked(all, visible, at, n - 1) {
            before
        } else {
            before.push(all[n - 1])
        }
    }
}

fn lists(list: &Vec<String>, p: &str) -> (r: bool)
    ensures
        r == texts(list@).contains(p@),
{
    for i in 0..list.len()
        invariant
            forall|j: int| 0 <= j < i ==> #[trigger] texts(list@)[j] != p@,
    {
        if same_str(list[i].as_str(), p) {
            assert(texts(list@)[i as int] == p@);
            return true;
        }
    }
    false
}

fn is_position(at: &Vec<usize>, k: usize) -> (r: bool)
    ensures
        r == is_among(at@, k as nat),
{
    for i in 0..at.len()
        invariant
            forall|j: int| 0 <= j < i ==> #[trigger] at@[j] != k,
    {
        if at[i] == k {
            assert(at@[i as int] == k);
            return true;
        }
    }
    false
}

/// Removes the items at the given positions of the visible list, which skips
/// files no longer in the library, from the whole list.
pub fn removed(all: Vec<String>, visible: &Vec<String>, at: &Vec<usize>) -> (r: Vec<String>)
    ensures
        texts(r@) == without_positions(texts(all@), texts(visible@), at@, all@.len()),
{
    let ghost whole = texts(all@);
    let ghost seen = texts(visible@);
    let mut r: Vec<String> = Vec::new();
    let mut shown: usize = 0;
    assert(texts(r@) == Seq::<Seq<char>>::empty());
    for i in 0..all.len()
        invariant
            whole == texts(all@),
            seen == texts(visible@),
            shown == shown_among(whole, seen, i as nat),
            shown <= i,
            texts(r@) == without_positions(whole, seen, at@, i as nat),
    {
        let p = all[i].as_str();
        assert(whole[i as int] == p@);
        let is_shown = lists(visible, p);
        if !(is_shown && is_position(at, shown)) {
            push_text(&mut r, copy_str(p));
        }
        if is_shown {
            shown = shown + 1;
        }
    }
    r
}

/// The entries that are visible.
pub open spec fn shown(all: Seq<Seq<char>>, visible: Seq<Seq<char>>) -> Seq<Seq<char>> {
    all.filter(|p: Seq<char>| visible.contains(p))
}

/// The entries that are not.
pub open spec fn unseen(all: Seq<Seq<char>>, visible: Seq<Seq<char>>) -> Seq<Seq<char>> {
    all.filter(|p: Seq<char>| !visible.contains(p))
}

/// The first `n` items of a list without those at the given positions.
pub open spec fn dropped(list: Seq<Seq<char>>, at: Seq<usize>, n: nat) -> Seq<Seq<char>>
    decreases n,
{
    if n == 0 || n > list.len() {
        Seq::empty()
    } else if is_among(at, (n - 1) as nat) {
        dropped(list, at, (n - 1) as nat)
    } else {
        dropped(list, at, (n - 1) as nat).push(list[n - 1])
    }
}

/// Of what is shown exactly the items at the given positions go; what is not
/// shown stays.
pub proof fn only_positions_go(all: Seq<Seq<char>>, visible: Seq<Seq<char>>, at: Seq<usize>)
    ensures
        shown(without_positions(all, visible, at, all.len()), visible) == dropped(
            shown(all, visible),
            at,
            shown(all, visible).len(),
        ),
        unseen(without_positions(all, visible, at, all.len()), visible) == unseen(all, visible),
{
    lemma_positions(all, visible, at, all.len());
    assert(all.subrange(0, all.len() as int) == all);
}

proof fn lemma_positions(all: Seq<Seq<char>>, visible: Seq<Seq<char>>, at: Seq<usize>, n: nat)
    requires
        n <= all.len(),
    ensures
        ({
            let front = all.subrange(0, n as int);
            let left = without_positions(all, visible, at, n);
            &&& shown(front, visible).len() == shown_among(all, visible, n)
            &&& shown(left, visible) == dropped(
                shown(front, visible),
                at,
                shown(front, visible).len(),
            )
            &&& unseen(left, visible) == unseen(front, visible)
        }),
    decreases n,
{
    if n == 0 {
        assert(all.subrange(0, 0) == Seq::<Seq<char>>::empty());
        lemma_filter_nothing(visible);
    } else {
        let m = (n - 1) as nat;
        lemma_positions(all, visible, at, m);
        let front = all.subrange(0, m as int);
        let left = without_positions(all, visible, at, m);
        let x = all[m as int];
        assert(all.subrange(0, n as int) == front.push(x));
        lemma_filter_push(front, visible, x);
        lemma_filter_push(left, visible, x);
        if visible.contains(x) {
            lemma_dropped_push(shown(front, visible), at, x, shown(front, visible).len());
        }
    }
}

proof fn lemma_filter_nothing(visible: Seq<Seq<char>>)
    ensures
        shown(Seq::empty(), visible) == Seq::<Seq<char>>::empty(),
        unseen(Seq::empty(), visible) == Seq::<Seq<char>>::empty(),
{
    reveal(Seq::filter);
}

proof fn lemma_filter_push(all: Seq<Seq<char>>, visible: Seq<Seq<char>>, x: Seq<char>)
    ensures
        shown(all.push(x), visible) == (if visible.contains(x) {
            shown(all, visible).push(x)
        } else {
            shown(all, visible)
        }),
        unseen(all.push(x), visible) == (if visible.contains(x) {
            unseen(all, visible)
        } else {
            unseen(all, visible).push(x)
        }),
{
    reveal(Seq::filter);
    assert(all.push(x).drop_last() == all);
}

proof fn lemma_dropped_push(list: Seq<Seq<char>>, at: Seq<usize>, x: Seq<char>, n: nat)
    requires
        n <= list.len(),
    ensures
        dropped(list.push(x), at, n) == dropped(list, at, n),
    decreases n,
{
    if n > 0 {
        lemma_dropped_push(list, at, x, (n - 1) as nat);
    }
}

/// Moves an item of a playlist; positions outside it change nothing.
pub fn moved(paths: Vec<String>, from: usize, to: usize) -> (r: Vec<String>)
    ensures
        r@ == (if from < paths@.len() && to < paths@.len() {
            paths@.remove(from as int).insert(to as int, paths@[from as int])
        } else {
            paths@
        }),
{
    let mut r = paths;
    if from < r.len() && to < r.len() {
        let p = r.remove(from);
        r.insert(to, p);
    }
    r
}

// ---------------------------------------------------------------------------
// M3U
// ---------------------------------------------------------------------------

/// A track as an M3U file lists it.
#[derive(Debug)]
pub struct M3uEntry {
    pub duration_ms: u64,
    pub artist: Option<String>,
    pub title: String,
    pub path: String,
}

/// An entry's two lines.
pub open spec fn entry_text(e: M3uEntry) -> Seq<char> {
    "#EXTINF:"@ + dec((e.duration_ms / 1000) as nat) + ","@ + (match e.artist {
        Some(a) => a@,
        None => ""@,
    }) + " - "@ + e.title@ + "\n"@ + e.path@ + "\n"@
}

/// An M3U file with the first `n` entries.
pub open spec fn m3u_text(entries: Seq<M3uEntry>, n: nat) -> Seq<char>
    decreases n,
{
    if n == 0 || n > entries.len() {
        "#EXTM3U\n"@
    } else {
        m3u_text(entries, (n - 1) as nat) + entry_text(entries[n - 1])
    }
}

/// The M3U file for some tracks.
pub fn export_m3u(entries: &Vec<M3uEntry>) -> (out: String)
    ensures
        out@ == m3u_text(entries@, entries@.len()),
{
    let mut out = copy_str("#EXTM3U\n");
    for i in 0..entries.len()
        invariant
            out@ == m3u_text(entries@, i as nat),
    {
        let e = &entries[i];
        let ghost before = out@;
        out.push_str("#EXTINF:");
        push_dec(&mut out, e.duration_ms / 1000);
        out.push_str(",");
        match &e.artist {
            Some(a) => out.push_str(a.as_str()),
            None => out.push_str(""),
        }
        out.push_str(" - ");
        out.push_str(e.title.as_str());
        out.push_str("\n");
        out.push_str(e.path.as_str());
        out.push_str("\n");
        assert(out@ == before + entry_text(entries@[i as int]));
    }
    out
}

/// The path that a line of an M3U file gives; relative ones are taken from the
/// directory of the file.
pub open spec fn m3u_line(line: Seq<char>, base: Seq<char>) -> Option<Seq<char>> {
    let l = trim(line);
    if l.len() == 0 || l[0] == '#' {
        None
    } else {
        let p = match path_of(l) {
            Some(p) => p,
            None => l,
        };
        Some(
            if p.len() > 0 && p[0] == '/' {
                p
            } else {
                joined(base, p)
            },
        )
    }
}

/// The paths that the first `n` lines give.
pub open spec fn m3u_paths(lines: Seq<Seq<char>>, base: Seq<char>, n: nat) -> Seq<Seq<char>>
    decreases n,
{
    if n == 0 || n > lines.len() {
        Seq::empty()
    } else {
        let before = m3u_paths(lines, base, (n - 1) as nat);
        match m3u_line(lines[n - 1], base) {
            Some(p) => before.push(p),
            None => before,
        }
    }
}

/// The paths in an M3U/M3U8 file that lies in the directory `base`.
pub fn import_m3u(text: &str, base: &str) -> (out: Vec<String>)
    ensures
        texts(out@) == m3u_paths(lines(text@), base@, lines(text@).len()),
{
    let c = chars_of(text);
    let ls = lines_of(&c);
    let ghost want = lines(text@);
    let mut out: Vec<String> = Vec::new();
    assert(texts(out@) == Seq::<Seq<char>>::empty());
    for i in 0..ls.len()
        invariant
            want == lines(text@),
            ls.len() == want.len(),
            forall|j: int| 0 <= j < ls.len() ==> #[trigger] ls@[j]@ == want[j],
            texts(out@) == m3u_paths(want, base@, i as nat),
    {
        assert(ls@[i as int]@ == want[i as int]);
        let l = trim_of(&ls[i]);
        if l.len() > 0 && l[0] != '#' {
            let line = string_of(l);
            let p = match uri_to_path(line.as_str()) {
                Some(p) => p,
                None => line,
            };
            let pc = chars_of(p.as_str());
            let path = if pc.len() > 0 && pc[0] == '/' {
                p
            } else {
                join_path(base, p.as_str())
            };
            let ghost before = out@;
            let ghost v = path@;
            out.push(path);
            assert(texts(out@) == texts(before).push(v));
        }
    }
    out
}

// ---------------------------------------------------------------------------
// Laws
// ---------------------------------------------------------------------------

/// Moving an item keeps every item, and moving it back restores the playlist.
pub proof fn moving_back_restores(paths: Seq<String>, from: int, to: int)
    requires
        0 <= from < paths.len(),
        0 <= to < paths.len(),
    ensures
        ({
            let there = paths.remove(from).insert(to, paths[from]);
            &&& there.len() == paths.len()
            &&& there.remove(to).insert(from, there[to]) == paths
        }),
{
    let there = paths.remove(from).insert(to, paths[from]);
    assert(there.remove(to) == paths.remove(from));
    assert(paths.remove(from).insert(from, paths[from]) == paths);
}

/// Whether a text has no line feed.
pub open spec fn one_line(s: Seq<char>) -> bool {
    forall|i: int| 0 <= i < s.len() ==> s[i] != '\n'
}

/// Whether a track can be told from an M3U file: its names are single lines,
/// and its path is absolute, a single line, and has no white space around it.
pub open spec fn m3u_safe(e: M3uEntry) -> bool {
    &&& e.artist matches Some(a) ==> one_line(a@)
    &&& one_line(e.title@)
    &&& one_line(e.path@)
    &&& e.path@.len() > 0 && e.path@[0] == '/'
    &&& trim(e.path@) == e.path@
}

/// The paths of some entries.
pub open spec fn entry_paths(entries: Seq<M3uEntry>, n: nat) -> Seq<Seq<char>> {
    Seq::new(n, |i: int| entries[i].path@)
}

/// A playlist that is exported and read again, from wherever, has its tracks,
/// in their order.
pub proof fn playlists_survive_m3u(entries: Seq<M3uEntry>, base: Seq<char>)
    requires
        forall|i: int| 0 <= i < entries.len() ==> m3u_safe(#[trigger] entries[i]),
    ensures
        ({
            let ls = lines(m3u_text(entries, entries.len()));
            m3u_paths(ls, base, ls.len()) == entry_paths(entries, entries.len())
        }),
{
    let n = entries.len();
    lemma_m3u_pieces(entries, n);
    let t = m3u_text(entries, n);
    let pieces = split(t, '\n');
    let ls = lines(t);
    assert(ls.len() == 2 * n + 1);
    lemma_m3u_read(entries, ls, base, n);
}

/// The pieces of the first `n` entries' text: a header, two lines for each, and
/// nothing behind the last line feed.
proof fn lemma_m3u_pieces(entries: Seq<M3uEntry>, n: nat)
    requires
        n <= entries.len(),
        forall|i: int| 0 <= i < entries.len() ==> m3u_safe(#[trigger] entries[i]),
    ensures
        ({
            let t = m3u_text(entries, n);
            let pieces = split(t, '\n');
            &&& t.len() > 0 && t.last() == '\n'
            &&& pieces.len() == 2 * n + 2
            &&& pieces.last().len() == 0
            &&& pieces[0] == "#EXTM3U"@
            &&& forall|i: int| 0 <= i < n ==> #[trigger] pieces[2 * i + 1] == info_line(entries[i])
            &&& forall|i: int| 0 <= i < n ==> #[trigger] pieces[2 * i + 2] == entries[i].path@
        }),
    decreases n,
{
    reveal_strlit("#EXTM3U\n");
    reveal_strlit("#EXTM3U");
    reveal_strlit("\n");
    let t = m3u_text(entries, n);
    let pieces = split(t, '\n');
    if n == 0 {
        assert(Seq::<char>::empty() + "#EXTM3U"@ + seq!['\n'] == t);
        lemma_empty_split();
        lemma_split_push(Seq::empty(), "#EXTM3U"@, 0);
    } else {
        let m = (n - 1) as nat;
        lemma_m3u_pieces(entries, m);
        let t0 = m3u_text(entries, m);
        let e = entries[n - 1];
        let info = info_line(e);
        lemma_info_line(e);
        let t1 = t0 + info + seq!['\n'];
        assert(t == t1 + e.path@ + seq!['\n']);
        lemma_split_push(t0, info, 0);
        lemma_split_push(t1, e.path@, 0);
        let p0 = split(t0, '\n');
        let p1 = split(t1, '\n');
        assert(p1 == p0.drop_last() + seq![info, Seq::<char>::empty()]);
        assert(pieces == p1.drop_last() + seq![e.path@, Seq::<char>::empty()]);
        assert forall|i: int| 0 <= i < n implies #[trigger] pieces[2 * i + 1] == info_line(
            entries[i],
        ) by {
            if i < m {
                assert(p0[2 * i + 1] == info_line(entries[i]));
            }
        }
        assert forall|i: int| 0 <= i < n implies #[trigger] pieces[2 * i + 2]
            == entries[i].path@ by {
            if i < m {
                assert(p0[2 * i + 2] == entries[i].path@);
            }
        }
    }
}

/// The first line of an entry.
spec fn info_line(e: M3uEntry) -> Seq<char> {
    "#EXTINF:"@ + dec((e.duration_ms / 1000) as nat) + ","@ + (match e.artist {
        Some(a) => a@,
        None => ""@,
    }) + " - "@ + e.title@
}

proof fn lemma_info_line(e: M3uEntry)
    requires
        m3u_safe(e),
    ensures
        one_line(info_line(e)),
        info_line(e).len() > 0,
        info_line(e)[0] == '#',
        entry_text(e) == info_line(e) + seq!['\n'] + e.path@ + seq!['\n'],
{
    reveal_strlit("#EXTINF:");
    reveal_strlit(",");
    reveal_strlit("");
    reveal_strlit(" - ");
    reveal_strlit("\n");
    lemma_dec_digits((e.duration_ms / 1000) as nat);
    assert("\n"@ == seq!['\n']);
}

proof fn lemma_empty_split()
    ensures
        split(Seq::<char>::empty(), '\n') == seq![Seq::<char>::empty()],
{
    assert(Seq::<char>::empty().subrange(0, 0) == Seq::<char>::empty());
}

/// A line more at the end of a text whose last line is ended.
proof fn lemma_split_push(t: Seq<char>, l: Seq<char>, from: int)
    requires
        t.len() == 0 || t.last() == '\n',
        one_line(l),
        0 <= from <= t.len(),
    ensures
        ({
            let s = t + l + seq!['\n'];
            &&& split_from(s, '\n', from) == split_from(t, '\n', from).drop_last() + seq![
                l,
                Seq::<char>::empty(),
            ]
            &&& split_from(t, '\n', from).len() > 0
            &&& split_from(t, '\n', from).last().len() == 0
        }),
    decreases t.len() - from,
{
    let s = t + l + seq!['\n'];
    let n = t.len() as int;
    if from == n {
        lemma_index(s, '\n', n, n + l.len());
        assert(s.subrange(n, n + l.len()) == l);
        assert(s.subrange(s.len() as int, s.len() as int) == Seq::<char>::empty());
        assert(t.subrange(n, n) == Seq::<char>::empty());
        assert(index_from(t, '\n', n) == n);
        assert(index_from(s, '\n', s.len() as int) == s.len());
        assert(split_from(s, '\n', s.len() as int) == seq![Seq::<char>::empty()]);
        assert(split_from(t, '\n', n) == seq![Seq::<char>::empty()]);
        assert(split_from(s, '\n', n) == seq![l] + seq![Seq::<char>::empty()]);
        assert(split_from(t, '\n', n).drop_last() + seq![l, Seq::<char>::empty()] == seq![l]
            + seq![Seq::<char>::empty()]);
    } else {
        assert(t[n - 1] == '\n');
        lemma_first(t, '\n', from, n - 1);
        let end = index_from(t, '\n', from);
        assert(from <= end <= n - 1);
        assert(s[end] == t[end]);
        lemma_index(s, '\n', from, end);
        lemma_split_push(t, l, end + 1);
        assert(s.subrange(from, end) == t.subrange(from, end));
        let rest = split_from(t, '\n', end + 1);
        assert((seq![t.subrange(from, end)] + rest).drop_last() == seq![t.subrange(from, end)]
            + rest.drop_last());
        assert(seq![t.subrange(from, end)] + (rest.drop_last() + seq![l, Seq::<char>::empty()])
            == seq![t.subrange(from, end)] + rest.drop_last() + seq![l, Seq::<char>::empty()]);
    }
}

/// A character that occurs has a first occurrence.
proof fn lemma_first(s: Seq<char>, c: char, from: int, at: int)
    requires
        0 <= from <= at < s.len(),
        s[at] == c,
    ensures
        from <= index_from(s, c, from) <= at,
        s[index_from(s, c, from)] == c,
        forall|i: int| from <= i < index_from(s, c, from) ==> s[i] != c,
    decreases at - from,
{
    if s[from] != c {
        lemma_first(s, c, from + 1, at);
    }
}

/// A comment line gives no path, however it ends.
proof fn lemma_comment(line: Seq<char>, base: Seq<char>)
    requires
        line.len() > 0,
        line[0] == '#',
    ensures
        m3u_line(chomp(line), base) is None,
{
    let l = chomp(line);
    assert(l.len() > 0 && l[0] == '#');
    assert(trim_start(l) == l);
    lemma_trim_end_keeps(l);
}

proof fn lemma_trim_end_keeps(s: Seq<char>)
    requires
        s.len() > 0,
        !white_space(s[0]),
    ensures
        trim_end(s).len() > 0,
        trim_end(s)[0] == s[0],
    decreases s.len(),
{
    if white_space(s.last()) {
        assert(s.len() > 1);
        lemma_trim_end_keeps(s.drop_last());
    }
}

/// A trimmed text does not end with white space.
proof fn lemma_trimmed_end(s: Seq<char>)
    requires
        s.len() > 0,
        !white_space(s[0]),
        trim(s) == s,
    ensures
        !white_space(s.last()),
{
    assert(trim_start(s) == s);
    if white_space(s.last()) {
        lemma_trim_end_len(s.drop_last());
    }
}

proof fn lemma_trim_end_len(s: Seq<char>)
    ensures
        trim_end(s).len() <= s.len(),
    decreases s.len(),
{
    if s.len() > 0 && white_space(s.last()) {
        lemma_trim_end_len(s.drop_last());
    }
}

/// What the lines of the first `n` entries give.
proof fn lemma_m3u_read(entries: Seq<M3uEntry>, ls: Seq<Seq<char>>, base: Seq<char>, n: nat)
    requires
        n <= entries.len(),
        forall|i: int| 0 <= i < entries.len() ==> m3u_safe(#[trigger] entries[i]),
        ls == lines(m3u_text(entries, entries.len())),
        ls.len() == 2 * entries.len() + 1,
    ensures
        m3u_paths(ls, base, 2 * n + 1) == entry_paths(entries, n),
    decreases n,
{
    let all = entries.len();
    lemma_m3u_pieces(entries, all);
    let pieces = split(m3u_text(entries, all), '\n');
    reveal_with_fuel(m3u_paths, 3);
    if n == 0 {
        reveal_strlit("#EXTM3U");
        lemma_comment(pieces[0], base);
        assert(ls[0] == chomp(pieces[0]));
        assert(m3u_paths(ls, base, 1) == Seq::<Seq<char>>::empty());
        assert(entry_paths(entries, 0) == Seq::<Seq<char>>::empty());
    } else {
        let m = (n - 1) as nat;
        lemma_m3u_read(entries, ls, base, m);
        let e = entries[m as int];
        lemma_info_line(e);
        let i = m as int;
        assert(pieces[2 * i + 1] == info_line(e));
        assert(pieces[2 * i + 2] == e.path@);
        lemma_comment(pieces[2 * i + 1], base);
        assert(ls[2 * i + 1] == chomp(pieces[2 * i + 1]));
        assert(ls[2 * i + 2] == chomp(pieces[2 * i + 2]));
        let path = e.path@;
        lemma_trimmed_end(path);
        assert(chomp(path) == path);
        reveal_strlit("file://");
        assert("file://"@[0] == 'f');
        if path.len() >= "file://"@.len() {
            assert(path.subrange(0, "file://"@.len() as int)[0] == '/');
        }
        assert(path_of(path) is None);
        assert(m3u_line(path, base) == Some(path));
        assert(m3u_paths(ls, base, (2 * m + 2) as nat) == m3u_paths(ls, base, (2 * m + 1) as nat));
        assert(m3u_paths(ls, base, (2 * m + 3) as nat) == m3u_paths(
            ls,
            base,
            (2 * m + 2) as nat,
        ).push(path));
        assert(entry_paths(entries, n) == entry_paths(entries, m).push(path));
    }
}

} // verus!
