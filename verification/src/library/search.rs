//! Searching: full-text queries, and the order of what they find.

use vstd::prelude::*;

use crate::library::tracks::Artist;
use crate::order::{insert_sorted, sort_stable};
use crate::text::{
    alphanumeric, chars_of, concat3, is_alphanumeric, join, join_strings, lower_all, lower_chars,
    lowercase, push_text, same_chars, same_str, string_of, texts, to_lowercase,
};

verus! {

/// Where a text first stands in a list from `i` on.
pub open spec fn position_from(list: Seq<Seq<char>>, p: Seq<char>, i: int) -> Option<int>
    decreases list.len() - i,
{
    if i < 0 || i >= list.len() {
        None
    } else if list[i] == p {
        Some(i)
    } else {
        position_from(list, p, i + 1)
    }
}

/// Whether a character belongs to a search term.
pub open spec fn term_char(c: char) -> bool {
    alphanumeric(c) || c == '\''
}

/// The terms among the first `n` characters, and the one being read.
pub open spec fn terms_to(q: Seq<char>, n: nat) -> (Seq<Seq<char>>, Seq<char>)
    decreases n,
{
    if n == 0 || n > q.len() {
        (Seq::empty(), Seq::empty())
    } else {
        let (done, word) = terms_to(q, (n - 1) as nat);
        if term_char(q[n - 1]) {
            (done, word.push(q[n - 1]))
        } else if word.len() > 0 {
            (done.push(word), Seq::empty())
        } else {
            (done, word)
        }
    }
}

/// The terms of a query: its longest runs of letters, digits and apostrophes.
pub open spec fn terms(q: Seq<char>) -> Seq<Seq<char>> {
    let (done, word) = terms_to(q, q.len());
    if word.len() > 0 {
        done.push(word)
    } else {
        done
    }
}

/// A term as a prefix query.
pub open spec fn quoted(terms: Seq<Seq<char>>) -> Seq<Seq<char>> {
    Seq::new(terms.len(), |i: int| "\""@ + terms[i] + "\"*"@)
}

/// The terms of a query.
pub fn split_terms(q: &str) -> (out: Vec<String>)
    ensures
        texts(out@) == terms(q@),
{
    let c = chars_of(q);
    let mut out: Vec<String> = Vec::new();
    let mut word: Vec<char> = Vec::new();
    assert(texts(out@) == Seq::<Seq<char>>::empty());
    for i in 0..c.len()
        invariant
            c@ == q@,
            (texts(out@), word@) == terms_to(q@, i as nat),
    {
        let ch = c[i];
        if is_alphanumeric(ch) || ch == '\'' {
            word.push(ch);
        } else if word.len() > 0 {
            push_text(&mut out, string_of(&word));
            word = Vec::new();
        }
    }
    if word.len() > 0 {
        push_text(&mut out, string_of(&word));
    }
    out
}

/// The full-text query for some terms; none for no terms.
pub fn prefix_query(words: &Vec<String>) -> (r: Option<String>)
    ensures
        words@.len() == 0 ==> r is None,
        words@.len() > 0 ==> (r matches Some(s) && s@ == join(quoted(texts(words@)), " "@)),
{
    if words.len() == 0 {
        return None;
    }
    let mut parts: Vec<String> = Vec::new();
    assert(texts(parts@) == quoted(texts(words@)).subrange(0, 0));
    for i in 0..words.len()
        invariant
            texts(parts@) == quoted(texts(words@)).subrange(0, i as int),
    {
        push_text(&mut parts, concat3("\"", words[i].as_str(), "\"*"));
        assert(quoted(texts(words@)).subrange(0, i + 1) == quoted(texts(words@)).subrange(
            0,
            i as int,
        ).push(quoted(texts(words@))[i as int]));
    }
    assert(quoted(texts(words@)).subrange(0, words@.len() as int) == quoted(texts(words@)));
    Some(join_strings(&parts, " "))
}

/// Turn free text into an FTS5 prefix query: `miles kind` → `"miles"* "kind"*`.
pub fn fts_query(q: &str) -> (r: Option<String>)
    ensures
        terms(q@).len() == 0 ==> r is None,
        terms(q@).len() > 0 ==> (r matches Some(s) && s@ == join(quoted(terms(q@)), " "@)),
{
    let words = split_terms(q);
    assert(words@.len() == texts(words@).len());
    prefix_query(&words)
}

// ---------------------------------------------------------------------------
// Artists
// ---------------------------------------------------------------------------

/// Where a name stands in a list from `i` on, whatever the case of its ASCII
/// letters; the length of the list where it does not.
pub open spec fn name_rank(names: Seq<Seq<char>>, name: Seq<char>, i: int) -> int
    decreases names.len() - i,
{
    if i < 0 || i >= names.len() {
        names.len() as int
    } else if lower_all(names[i]) == lower_all(name) {
        i
    } else {
        name_rank(names, name, i + 1)
    }
}

/// Orders artists by where their names stand in a list.
pub open spec fn artist_order(names: Seq<Seq<char>>) -> spec_fn(Artist, Artist) -> bool {
    |a: Artist, b: Artist| name_rank(names, a.name@, 0) <= name_rank(names, b.name@, 0)
}

/// Whether a name is in a list, up to case.
pub open spec fn wanted(names: Seq<Seq<char>>, name: Seq<char>) -> bool {
    exists|i: int|
        0 <= i < names.len() && lowercase(#[trigger] names[i]) == lowercase(name)
}

/// The artists among the first `n` whose names are in the list, up to case.
pub open spec fn wanted_artists(
    artists: Seq<Artist>,
    names: Seq<Seq<char>>,
    n: nat,
) -> Seq<Artist>
    decreases n,
{
    if n == 0 || n > artists.len() {
        Seq::empty()
    } else {
        let before = wanted_artists(artists, names, (n - 1) as nat);
        if wanted(names, artists[n - 1].name@) {
            before.push(artists[n - 1])
        } else {
            before
        }
    }
}

fn rank_of(names: &Vec<String>, name: &str) -> (r: usize)
    ensures
        r == name_rank(texts(names@), name@, 0),
{
    let low = lower_chars(&chars_of(name));
    let n = names.len();
    for i in 0..n
        invariant
            n == names@.len(),
            low@ == lower_all(name@),
            name_rank(texts(names@), name@, 0) == name_rank(texts(names@), name@, i as int),
    {
        if same_chars(&lower_chars(&chars_of(names[i].as_str())), &low) {
            return i;
        }
    }
    n
}

fn lowered(names: &Vec<String>) -> (r: Vec<String>)
    ensures
        r@.len() == names@.len(),
        forall|i: int| 0 <= i < r@.len() ==> #[trigger] r@[i]@ == lowercase(names@[i]@),
{
    let mut r: Vec<String> = Vec::new();
    for i in 0..names.len()
        invariant
            r@.len() == i,
            forall|j: int| 0 <= j < i ==> #[trigger] r@[j]@ == lowercase(names@[j]@),
    {
        r.push(to_lowercase(names[i].as_str()));
    }
    r
}

fn is_wanted(low_names: &Vec<String>, name: &str, names: &Vec<String>) -> (r: bool)
    requires
        low_names@.len() == names@.len(),
        forall|i: int|
            0 <= i < low_names@.len() ==> #[trigger] low_names@[i]@ == lowercase(names@[i]@),
    ensures
        r == wanted(texts(names@), name@),
{
    let low = to_lowercase(name);
    for i in 0..low_names.len()
        invariant
            low_names@.len() == names@.len(),
            low@ == lowercase(name@),
            forall|i: int|
                0 <= i < low_names@.len() ==> #[trigger] low_names@[i]@ == lowercase(names@[i]@),
            forall|j: int| 0 <= j < i ==> #[trigger] low_names@[j]@ != low@,
    {
        if same_str(low_names[i].as_str(), low.as_str()) {
            assert(lowercase(texts(names@)[i as int]) == lowercase(name@));
            return true;
        }
    }
    assert forall|i: int| 0 <= i < texts(names@).len() implies lowercase(
        #[trigger] texts(names@)[i],
    ) != lowercase(name@) by {
        assert(low_names@[i]@ == lowercase(names@[i]@));
    }
    false
}

/// The artists whose names the search found, best match first.
pub fn matching_artists(artists: Vec<Artist>, names: &Vec<String>) -> (r: Vec<Artist>)
    ensures
        r@ == sort_stable(
            wanted_artists(artists@, texts(names@), artists@.len()),
            artist_order(texts(names@)),
        ),
{
    let ghost all = artists@;
    let ghost list = texts(names@);
    let ghost leq = artist_order(list);
    let low = lowered(names);
    let ghost same = |a: Artist| a;
    let mut out: Vec<Artist> = Vec::new();
    for a in it: artists.into_iter()
        invariant
            it.seq() == all,
            list == texts(names@),
            leq == artist_order(list),
            same == (|a: Artist| a),
            low@.len() == names@.len(),
            forall|i: int| 0 <= i < low@.len() ==> #[trigger] low@[i]@ == lowercase(names@[i]@),
            out@ == sort_stable(wanted_artists(all, list, it.index() as nat), leq),
    {
        if is_wanted(&low, a.name.as_str(), names) {
            let ghost before = out@;
            let ghost chosen = wanted_artists(all, list, it.index() as nat);
            assert(chosen.push(a).drop_last() == chosen);
            let le = |x: &Artist, y: &Artist| -> (r: bool)
                ensures
                    r == leq(*x, *y),
            { rank_of(names, x.name.as_str()) <= rank_of(names, y.name.as_str()) };
            insert_sorted::<_, Artist, _>(
                &mut out,
                a,
                le,
                Ghost(same),
                Ghost(leq),
            );
            assert(before.map_values(same) == before);
            assert(out@.map_values(same) == out@);
        }
    }
    out
}

// ---------------------------------------------------------------------------
// Albums
// ---------------------------------------------------------------------------

/// Where an album with the given id stands among those found.
fn find_id(ids: &Vec<String>, id: &str) -> (r: Option<usize>)
    ensures
        match position_from(texts(ids@), id@, 0) {
            Some(i) => r matches Some(k) && k == i && 0 <= i < ids@.len(),
            None => r is None,
        },
{
    let n = ids.len();
    for i in 0..n
        invariant
            n == ids@.len(),
            position_from(texts(ids@), id@, 0) == position_from(texts(ids@), id@, i as int),
    {
        if same_str(ids[i].as_str(), id) {
            return Some(i);
        }
    }
    None
}

/// The positions of the found albums in the order of the first `n` ids; each
/// album is taken once.
pub open spec fn in_id_order(ids: Seq<Seq<char>>, found: Seq<Seq<char>>, n: nat) -> Seq<usize>
    decreases n,
{
    if n == 0 || n > ids.len() {
        Seq::empty()
    } else {
        let before = in_id_order(ids, found, (n - 1) as nat);
        match position_from(found, ids[n - 1], 0) {
            Some(i) => if before.contains(i as usize) {
                before
            } else {
                before.push(i as usize)
            },
            None => before,
        }
    }
}

/// Puts albums in the order in which their ids were asked for. `found` are the
/// ids of the albums that there are, each once.
pub fn albums_by_ids(ids: &Vec<String>, found: &Vec<String>) -> (r: Vec<usize>)
    ensures
        r@ == in_id_order(texts(ids@), texts(found@), ids@.len()),
{
    let mut r: Vec<usize> = Vec::new();
    for n in 0..ids.len()
        invariant
            r@ == in_id_order(texts(ids@), texts(found@), n as nat),
    {
        if let Some(i) = find_id(found, ids[n].as_str()) {
            let mut taken = false;
            for k in 0..r.len()
                invariant
                    taken == exists|j: int| 0 <= j < k && #[trigger] r@[j] == i,
            {
                if r[k] == i {
                    taken = true;
                }
            }
            assert(taken == r@.contains(i));
            if !taken {
                r.push(i);
            }
        }
    }
    r
}

/// The positions of the ids that are not in another list: the albums that an
/// artist appears on, without those that are the artist's own.
pub fn not_among(ids: &Vec<String>, own: &Vec<String>) -> (r: Vec<usize>)
    ensures
        r@ == crate::library::scan::positions(
            ids@.len(),
            |i: int| !texts(own@).contains(ids@[i]@),
        ),
{
    let ghost test = |i: int| !texts(own@).contains(ids@[i]@);
    let mut r: Vec<usize> = Vec::new();
    for i in 0..ids.len()
        invariant
            test == (|i: int| !texts(own@).contains(ids@[i]@)),
            r@ == crate::library::scan::positions(i as nat, test),
    {
        let found = find_id(own, ids[i].as_str());
        proof {
            lemma_position(texts(own@), ids@[i as int]@, 0);
        }
        if found.is_none() {
            r.push(i);
        }
    }
    r
}

proof fn lemma_position(list: Seq<Seq<char>>, p: Seq<char>, i: int)
    requires
        0 <= i <= list.len(),
    ensures
        position_from(list, p, i) is Some <==> exists|j: int|
            i <= j < list.len() && #[trigger] list[j] == p,
    decreases list.len() - i,
{
    if i < list.len() && list[i] != p {
        lemma_position(list, p, i + 1);
    }
}

} // verus!
