//! File paths as text.

use vstd::prelude::*;

use crate::text::{
    chars_of, concat2, concat3, copy_chars, copy_str, index_from, same_chars, split, split_from, split_on, texts,
};

verus! {

/// `base` with the relative path `name` behind it.
pub open spec fn joined(base: Seq<char>, name: Seq<char>) -> Seq<char> {
    if base.len() == 0 {
        name
    } else if base.last() == '/' {
        base + name
    } else {
        base + "/"@ + name
    }
}

/// `base` with the relative path `name` behind it.
pub fn join_path(base: &str, name: &str) -> (r: String)
    ensures
        r@ == joined(base@, name@),
{
    let b = chars_of(base);
    if b.len() == 0 {
        copy_str(name)
    } else if b[b.len() - 1] == '/' {
        concat2(base, name)
    } else {
        concat3(base, "/", name)
    }
}

// ---------------------------------------------------------------------------
// Components
// ---------------------------------------------------------------------------

/// Whether the piece at `i` between two slashes is a component: empty pieces
/// are none, and neither is `.`, except at the front of a relative path.
pub open spec fn is_component(pieces: Seq<Seq<char>>, i: int) -> bool {
    pieces[i].len() > 0 && (pieces[i] != seq!['.'] || i == 0)
}

/// The components among the first `n` pieces.
pub open spec fn components_of(pieces: Seq<Seq<char>>, n: nat) -> Seq<Seq<char>>
    decreases n,
{
    if n == 0 || n > pieces.len() {
        Seq::empty()
    } else if is_component(pieces, n - 1) {
        components_of(pieces, (n - 1) as nat).push(pieces[n - 1])
    } else {
        components_of(pieces, (n - 1) as nat)
    }
}

/// The components of a path.
pub open spec fn components(p: Seq<char>) -> Seq<Seq<char>> {
    components_of(split(p, '/'), split(p, '/').len())
}

/// Whether a path starts at the root.
pub open spec fn is_absolute(p: Seq<char>) -> bool {
    p.len() > 0 && p[0] == '/'
}

/// Whether two texts are the same path: doubled slashes, slashes at the end and
/// `.` components do not matter.
pub open spec fn same_place(a: Seq<char>, b: Seq<char>) -> bool {
    is_absolute(a) == is_absolute(b) && components(a) == components(b)
}

/// Whether a path is among some others.
pub open spec fn lists_path(list: Seq<Seq<char>>, p: Seq<char>) -> bool {
    exists|i: int| 0 <= i < list.len() && same_place(#[trigger] list[i], p)
}

/// The contents of a list of pieces.
pub open spec fn piece_views(v: Seq<Vec<char>>) -> Seq<Seq<char>> {
    Seq::new(v.len(), |i: int| v[i]@)
}

fn components_in(p: &[char]) -> (r: Vec<Vec<char>>)
    ensures
        piece_views(r@) == components(p@),
{
    let pieces = split_on(p, '/');
    let ghost want = split(p@, '/');
    let mut r: Vec<Vec<char>> = Vec::new();
    assert(piece_views(r@) == Seq::<Seq<char>>::empty());
    for i in 0..pieces.len()
        invariant
            want == split(p@, '/'),
            pieces@.len() == want.len(),
            forall|k: int| 0 <= k < pieces@.len() ==> #[trigger] pieces@[k]@ == want[k],
            piece_views(r@) == components_of(want, i as nat),
    {
        let piece = &pieces[i];
        let dot = piece.len() == 1 && piece[0] == '.';
        assert(dot ==> piece@ == seq!['.']);
        if piece.len() > 0 && (!dot || i == 0) {
            let ghost before = r@;
            r.push(copy_chars(piece.as_slice()));
            assert(piece_views(r@) == piece_views(before).push(piece@));
        }
    }
    r
}

fn same_pieces(a: &Vec<Vec<char>>, b: &Vec<Vec<char>>) -> (r: bool)
    ensures
        r == (piece_views(a@) == piece_views(b@)),
{
    if a.len() != b.len() {
        assert(piece_views(a@).len() != piece_views(b@).len());
        return false;
    }
    for i in 0..a.len()
        invariant
            a@.len() == b@.len(),
            forall|j: int| 0 <= j < i ==> (#[trigger] a@[j])@ == b@[j]@,
    {
        if !same_chars(&a[i], &b[i]) {
            assert(piece_views(a@)[i as int] != piece_views(b@)[i as int]);
            return false;
        }
    }
    assert(piece_views(a@) == piece_views(b@));
    true
}

/// Whether two texts are the same path.
pub fn same_path(a: &str, b: &str) -> (r: bool)
    ensures
        r == same_place(a@, b@),
{
    let x = chars_of(a);
    let y = chars_of(b);
    let rooted = (x.len() > 0 && x[0] == '/') == (y.len() > 0 && y[0] == '/');
    rooted && same_pieces(&components_in(&x), &components_in(&y))
}

/// Whether a path is among some others.
pub fn is_listed(list: &Vec<String>, p: &str) -> (r: bool)
    ensures
        r == lists_path(texts(list@), p@),
{
    for i in 0..list.len()
        invariant
            forall|j: int| 0 <= j < i ==> !same_place(#[trigger] texts(list@)[j], p@),
    {
        if same_path(list[i].as_str(), p) {
            assert(same_place(texts(list@)[i as int], p@));
            return true;
        }
    }
    false
}

proof fn lemma_index_bounds(s: Seq<char>, c: char, from: int)
    requires
        0 <= from <= s.len(),
    ensures
        from <= index_from(s, c, from) <= s.len(),
    decreases s.len() - from,
{
    if from < s.len() && s[from] != c {
        lemma_index_bounds(s, c, from + 1);
    }
}

proof fn lemma_index_push(s: Seq<char>, c: char, from: int)
    requires
        0 <= from <= s.len(),
    ensures
        index_from(s.push(c), c, from) == index_from(s, c, from),
    decreases s.len() - from,
{
    if from < s.len() {
        if s[from] != c {
            lemma_index_push(s, c, from + 1);
        }
    } else {
        assert(s.push(c)[from] == c);
    }
}

proof fn lemma_split_push(s: Seq<char>, c: char, from: int)
    requires
        0 <= from <= s.len(),
    ensures
        split_from(s.push(c), c, from) == split_from(s, c, from).push(Seq::empty()),
    decreases s.len() - from,
{
    let t = s.push(c);
    lemma_index_push(s, c, from);
    lemma_index_bounds(s, c, from);
    let end = index_from(s, c, from);
    assert(t.subrange(from, end) == s.subrange(from, end));
    if end < s.len() {
        lemma_split_push(s, c, end + 1);
        assert(seq![s.subrange(from, end)] + split_from(s, c, end + 1).push(Seq::empty()) == (seq![
            s.subrange(from, end),
        ] + split_from(s, c, end + 1)).push(Seq::empty()));
    } else {
        assert(index_from(t, c, t.len() as int) == t.len());
        assert(t.subrange(t.len() as int, t.len() as int) == Seq::<char>::empty());
        assert(split_from(t, c, t.len() as int) == seq![Seq::<char>::empty()]);
        assert(seq![s.subrange(from, end)] + seq![Seq::<char>::empty()] == seq![
            s.subrange(from, end),
        ].push(Seq::empty()));
    }
}

proof fn lemma_components_push(pieces: Seq<Seq<char>>, last: Seq<char>, n: nat)
    requires
        n <= pieces.len(),
    ensures
        components_of(pieces.push(last), n) == components_of(pieces, n),
    decreases n,
{
    if n > 0 {
        lemma_components_push(pieces, last, (n - 1) as nat);
        assert(pieces.push(last)[n - 1] == pieces[n - 1]);
    }
}

/// A slash at the end of a path leads to no other place.
pub proof fn a_slash_behind_leads_nowhere(p: Seq<char>)
    requires
        p.len() > 0,
    ensures
        same_place(p, p.push('/')),
{
    lemma_split_push(p, '/', 0);
    let pieces = split(p, '/');
    lemma_components_push(pieces, Seq::empty(), pieces.len());
    assert(p.push('/')[0] == p[0]);
}

/// A name is put behind a folder with one slash between them.
pub proof fn a_name_is_put_behind_its_folder(base: Seq<char>, name: Seq<char>)
    ensures
        base.len() > 0 && base.last() != '/' ==> joined(base, name) == base + "/"@ + name,
        base.len() > 0 && base.last() == '/' ==> joined(base, name) == base + name,
        base.len() == 0 ==> joined(base, name) == name,
{
}

} // verus!
