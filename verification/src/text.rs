//! Characters and strings: the vocabulary that every other module's contracts
//! are written in, and the verified functions that compute it.

use vstd::prelude::*;
use vstd::slice::slice_subrange;
use vstd::std_specs::iter::IteratorSpec;
use vstd::string::*;
use vstd::utf8::{decode_utf8, encode_utf8, valid_utf8};

verus! {

/// `String::push` appends one character.
pub assume_specification[ String::push ](s: &mut String, c: char)
    ensures
        final(s)@ == old(s)@.push(c),
;

/// `String::push_str` appends a string slice.
pub assume_specification[ String::push_str ](s: &mut String, other: &str)
    ensures
        final(s)@ == old(s)@ + other@,
;

/// `String::from_utf8`: the text that UTF-8 bytes encode; nothing where the
/// bytes are no valid UTF-8.
#[verifier::external_body]
pub(crate) fn utf8_text(bytes: &[u8]) -> (r: Option<String>)
    ensures
        r is Some <==> valid_utf8(bytes@),
        r matches Some(s) ==> s@ == decode_utf8(bytes@),
{
    String::from_utf8(bytes.to_vec()).ok()
}

/// What `str::to_lowercase` makes of a text.
pub uninterp spec fn lowercase(s: Seq<char>) -> Seq<char>;

/// `str::to_lowercase`: the lower-case form of a text, according to Unicode.
#[verifier::external_body]
pub(crate) fn to_lowercase(s: &str) -> (r: String)
    ensures
        r@ == lowercase(s@),
{
    s.to_lowercase()
}

/// Whether `char::is_alphanumeric` holds of a character.
pub uninterp spec fn alphanumeric(c: char) -> bool;

/// `char::is_alphanumeric`: letters and digits, according to Unicode.
#[verifier::external_body]
pub(crate) fn is_alphanumeric(c: char) -> (r: bool)
    ensures
        r == alphanumeric(c),
{
    c.is_alphanumeric()
}

// ---------------------------------------------------------------------------
// Vocabulary
// ---------------------------------------------------------------------------

/// The characters with the Unicode `White_Space` property.
pub open spec fn white_space(c: char) -> bool {
    ||| '\u{9}' <= c <= '\u{d}'
    ||| c == ' '
    ||| c == '\u{85}'
    ||| c == '\u{a0}'
    ||| c == '\u{1680}'
    ||| '\u{2000}' <= c <= '\u{200a}'
    ||| c == '\u{2028}'
    ||| c == '\u{2029}'
    ||| c == '\u{202f}'
    ||| c == '\u{205f}'
    ||| c == '\u{3000}'
}

/// `s` without its leading white space.
pub open spec fn trim_start(s: Seq<char>) -> Seq<char>
    decreases s.len(),
{
    if s.len() > 0 && white_space(s[0]) {
        trim_start(s.drop_first())
    } else {
        s
    }
}

/// `s` without its trailing white space.
pub open spec fn trim_end(s: Seq<char>) -> Seq<char>
    decreases s.len(),
{
    if s.len() > 0 && white_space(s.last()) {
        trim_end(s.drop_last())
    } else {
        s
    }
}

/// `s` without the white space around it.
pub open spec fn trim(s: Seq<char>) -> Seq<char> {
    trim_end(trim_start(s))
}

/// Where `c` first occurs in `s` at or after `from`; the length of `s` where it does not.
pub open spec fn index_from(s: Seq<char>, c: char, from: int) -> int
    decreases s.len() - from,
{
    if from < 0 || from >= s.len() {
        s.len() as int
    } else if s[from] == c {
        from
    } else {
        index_from(s, c, from + 1)
    }
}

/// Whether `p` is a prefix of `s`.
pub open spec fn starts_with(s: Seq<char>, p: Seq<char>) -> bool {
    p.len() <= s.len() && s.subrange(0, p.len() as int) == p
}

/// Whether `p` is a suffix of `s`.
pub open spec fn ends_with(s: Seq<char>, p: Seq<char>) -> bool {
    p.len() <= s.len() && s.subrange(s.len() - p.len(), s.len() as int) == p
}

/// Whether `p` occurs in `s` at `i`.
pub open spec fn occurs_at(s: Seq<char>, p: Seq<char>, i: int) -> bool {
    0 <= i && i + p.len() <= s.len() && s.subrange(i, i + p.len()) == p
}

/// Where `p` first occurs in `s` at or after `from`, if it does.
pub open spec fn find_from(s: Seq<char>, p: Seq<char>, from: int) -> Option<int>
    decreases s.len() + 1 - from,
{
    if from < 0 || from + p.len() > s.len() {
        None
    } else if occurs_at(s, p, from) {
        Some(from)
    } else {
        find_from(s, p, from + 1)
    }
}

/// Whether `p` occurs in `s`.
pub open spec fn contains(s: Seq<char>, p: Seq<char>) -> bool {
    find_from(s, p, 0) is Some
}

/// Where `p` last occurs in `s` at or before `to`, if it does.
pub open spec fn rfind_to(s: Seq<char>, p: Seq<char>, to: int) -> Option<int>
    decreases to + 1,
{
    if to < 0 {
        None
    } else if occurs_at(s, p, to) {
        Some(to)
    } else {
        rfind_to(s, p, to - 1)
    }
}

/// What stands before and behind the first `p` in `s`.
pub open spec fn cut_once(s: Seq<char>, p: Seq<char>) -> Option<(Seq<char>, Seq<char>)> {
    match find_from(s, p, 0) {
        Some(i) => Some((s.subrange(0, i), s.subrange(i + p.len(), s.len() as int))),
        None => None,
    }
}

/// What stands before and behind the last `p` in `s`.
pub open spec fn rcut_once(s: Seq<char>, p: Seq<char>) -> Option<(Seq<char>, Seq<char>)> {
    match rfind_to(s, p, s.len() as int) {
        Some(i) => Some((s.subrange(0, i), s.subrange(i + p.len(), s.len() as int))),
        None => None,
    }
}

/// `s` from position `from` on, with `by` in place of each `p`.
pub open spec fn replaced_from(s: Seq<char>, p: Seq<char>, by: Seq<char>, from: int) -> Seq<char>
    decreases s.len() - from,
{
    if from < 0 || from > s.len() || p.len() == 0 {
        Seq::empty()
    } else {
        match find_from(s, p, from) {
            Some(i) => if i < from || i + p.len() > s.len() {
                Seq::empty()
            } else {
                s.subrange(from, i) + by + replaced_from(s, p, by, i + p.len())
            },
            None => s.subrange(from, s.len() as int),
        }
    }
}

/// `s` with `by` in place of each `p`.
pub open spec fn replaced(s: Seq<char>, p: Seq<char>, by: Seq<char>) -> Seq<char> {
    replaced_from(s, p, by, 0)
}

/// `s` without the `c`s around it.
pub open spec fn trim_char_start(s: Seq<char>, c: char) -> Seq<char>
    decreases s.len(),
{
    if s.len() > 0 && s[0] == c {
        trim_char_start(s.drop_first(), c)
    } else {
        s
    }
}

pub open spec fn trim_char_end(s: Seq<char>, c: char) -> Seq<char>
    decreases s.len(),
{
    if s.len() > 0 && s.last() == c {
        trim_char_end(s.drop_last(), c)
    } else {
        s
    }
}

/// The pieces of `s` from position `from` on, separated by `c`.
pub open spec fn split_from(s: Seq<char>, c: char, from: int) -> Seq<Seq<char>>
    decreases s.len() - from,
{
    if from < 0 || from > s.len() {
        Seq::empty()
    } else {
        let end = index_from(s, c, from);
        if end < from || end >= s.len() {
            seq![s.subrange(from, s.len() as int)]
        } else {
            seq![s.subrange(from, end)] + split_from(s, c, end + 1)
        }
    }
}

/// The pieces of `s` separated by `c`.
pub open spec fn split(s: Seq<char>, c: char) -> Seq<Seq<char>> {
    split_from(s, c, 0)
}

/// A line without the carriage return that ends it.
pub open spec fn chomp(s: Seq<char>) -> Seq<char> {
    if s.len() > 0 && s.last() == '\r' {
        s.drop_last()
    } else {
        s
    }
}

/// The lines of `s`: each ends with a line feed, or with a carriage return and
/// a line feed, and the last line's end may be missing.
pub open spec fn lines(s: Seq<char>) -> Seq<Seq<char>> {
    let pieces = split(s, '\n');
    Seq::new(
        if pieces.last().len() == 0 {
            (pieces.len() - 1) as nat
        } else {
            pieces.len()
        },
        |i: int|
            if i < pieces.len() - 1 {
                chomp(pieces[i])
            } else {
                pieces[i]
            },
    )
}

/// The words among the first `n` characters, and the one being read.
pub open spec fn words_to(s: Seq<char>, n: nat) -> (Seq<Seq<char>>, Seq<char>)
    decreases n,
{
    if n == 0 || n > s.len() {
        (Seq::empty(), Seq::empty())
    } else {
        let (done, word) = words_to(s, (n - 1) as nat);
        if !white_space(s[n - 1]) {
            (done, word.push(s[n - 1]))
        } else if word.len() > 0 {
            (done.push(word), Seq::empty())
        } else {
            (done, word)
        }
    }
}

/// The words of `s`: its longest runs without white space.
pub open spec fn words(s: Seq<char>) -> Seq<Seq<char>> {
    let (done, word) = words_to(s, s.len());
    if word.len() > 0 {
        done.push(word)
    } else {
        done
    }
}

/// The texts of a sequence of strings.
pub open spec fn texts(v: Seq<String>) -> Seq<Seq<char>> {
    Seq::new(v.len(), |i: int| v[i]@)
}

/// The text of an optional string.
pub open spec fn text_opt(o: Option<String>) -> Option<Seq<char>> {
    match o {
        Some(s) => Some(s@),
        None => None,
    }
}

/// The decimal digit for `d`.
pub open spec fn digit(d: nat) -> char {
    (48 + d) as char
}

/// The decimal notation of `n`.
pub open spec fn dec(n: nat) -> Seq<char>
    decreases n,
{
    if n < 10 {
        seq![digit(n)]
    } else {
        dec(n / 10).push(digit(n % 10))
    }
}

/// The decimal notation of `n` with at least `width` digits.
pub open spec fn dec_padded(n: nat, width: nat) -> Seq<char> {
    let d = dec(n);
    if d.len() >= width {
        d
    } else {
        Seq::new((width - d.len()) as nat, |i: int| '0') + d
    }
}

/// The decimal notation of an integer.
pub open spec fn dec_int(n: int) -> Seq<char> {
    if n < 0 {
        seq!['-'] + dec((-n) as nat)
    } else {
        dec(n as nat)
    }
}

pub open spec fn is_digit(c: char) -> bool {
    '0' <= c <= '9'
}

/// Whether `s` is one or more decimal digits.
pub open spec fn all_digits(s: Seq<char>) -> bool {
    s.len() > 0 && forall|i: int| 0 <= i < s.len() ==> is_digit(#[trigger] s[i])
}

/// The number that a sequence of decimal digits denotes.
pub open spec fn value_of(s: Seq<char>) -> nat
    decreases s.len(),
{
    if s.len() == 0 {
        0
    } else {
        value_of(s.drop_last()) * 10 + (s.last() as nat - 48) as nat
    }
}

/// What reading `s` as an unsigned number up to `max` gives: digits with at
/// most one `+` before them.
pub open spec fn read_unsigned(s: Seq<char>, max: nat) -> Option<nat> {
    let body = if s.len() > 0 && s[0] == '+' {
        s.drop_first()
    } else {
        s
    };
    if all_digits(body) && value_of(body) <= max {
        Some(value_of(body))
    } else {
        None
    }
}

/// What reading `s` as a signed 64-bit number gives: digits with at most one
/// sign before them.
pub open spec fn read_signed(s: Seq<char>) -> Option<int> {
    if s.len() > 0 && s[0] == '-' {
        if all_digits(s.drop_first()) && value_of(s.drop_first()) <= 0x8000_0000_0000_0000 {
            Some(-(value_of(s.drop_first()) as int))
        } else {
            None
        }
    } else {
        match read_unsigned(s, 0x7fff_ffff_ffff_ffff) {
            Some(n) => Some(n as int),
            None => None,
        }
    }
}

/// The lower-case form of an ASCII letter; other characters as they are.
pub open spec fn lower(c: char) -> char {
    if 'A' <= c <= 'Z' {
        (c as u32 + 32) as char
    } else {
        c
    }
}

/// `s` with its ASCII letters in lower case.
pub open spec fn lower_all(s: Seq<char>) -> Seq<char> {
    Seq::new(s.len(), |i: int| lower(s[i]))
}

/// The pieces one after another, with `sep` between each two.
pub open spec fn join(parts: Seq<Seq<char>>, sep: Seq<char>) -> Seq<char>
    decreases parts.len(),
{
    if parts.len() == 0 {
        Seq::empty()
    } else if parts.len() == 1 {
        parts[0]
    } else {
        join(parts.drop_last(), sep) + sep + parts.last()
    }
}

// ---------------------------------------------------------------------------
// Conversion and comparison
// ---------------------------------------------------------------------------

/// The characters of a string, in order.
pub fn chars_of(s: &str) -> (v: Vec<char>)
    ensures
        v@ == s@,
{
    let mut v: Vec<char> = Vec::new();
    let mut it = s.chars();
    loop
        invariant
            v@ + it.remaining() == s@,
            it.obeys_prophetic_iter_laws(),
            it.decrease() is Some,
        ensures
            v@ == s@,
        decreases it.decrease()->0,
    {
        let ghost before = it.remaining();
        match it.next() {
            Some(c) => {
                assert(before == seq![c] + it.remaining());
                v.push(c);
                assert(v@ + it.remaining() == s@);
            },
            None => {
                assert(v@ == s@);
                break;
            },
        }
    }
    v
}

/// The string with the given characters.
pub fn string_of(v: &[char]) -> (s: String)
    ensures
        s@ == v@,
{
    let mut s = String::new();
    push_chars(&mut s, v);
    s
}

/// Appends characters to a string.
pub fn push_chars(s: &mut String, v: &[char])
    ensures
        final(s)@ == old(s)@ + v@,
{
    let ghost before = s@;
    for i in 0..v.len()
        invariant
            s@ == before + v@.subrange(0, i as int),
    {
        s.push(v[i]);
        assert(before + v@.subrange(0, i + 1) == (before + v@.subrange(0, i as int)).push(
            v@[i as int],
        ));
    }
    assert(v@.subrange(0, v@.len() as int) == v@);
}

/// The bytes of a string's UTF-8 encoding.
pub fn bytes_of(s: &str) -> (v: Vec<u8>)
    ensures
        v@ == encode_utf8(s@),
{
    s.as_bytes_vec()
}

/// The characters whose code points are the given bytes (Latin-1).
pub open spec fn latin1(b: Seq<u8>) -> Seq<char> {
    Seq::new(b.len(), |i: int| b[i] as char)
}

pub fn latin1_chars(b: &[u8]) -> (v: Vec<char>)
    ensures
        v@ == latin1(b@),
{
    let mut v: Vec<char> = Vec::new();
    for i in 0..b.len()
        invariant
            v@ == latin1(b@).subrange(0, i as int),
    {
        v.push(b[i] as char);
        assert(latin1(b@).subrange(0, i + 1) == latin1(b@).subrange(0, i as int).push(
            b@[i as int] as char,
        ));
    }
    assert(latin1(b@).subrange(0, b@.len() as int) == latin1(b@));
    v
}

/// Whether two character sequences are equal.
pub fn same_chars(a: &[char], b: &[char]) -> (r: bool)
    ensures
        r == (a@ == b@),
{
    if a.len() != b.len() {
        return false;
    }
    for i in 0..a.len()
        invariant
            a.len() == b.len(),
            forall|j: int| 0 <= j < i ==> a@[j] == b@[j],
    {
        if a[i] != b[i] {
            return false;
        }
    }
    assert(a@ == b@);
    true
}

/// Whether two strings are equal.
pub fn same_str(a: &str, b: &str) -> (r: bool)
    ensures
        r == (a@ == b@),
{
    let x = chars_of(a);
    let y = chars_of(b);
    same_chars(&x, &y)
}

/// A copy of a string.
pub fn copy_str(s: &str) -> (r: String)
    ensures
        r@ == s@,
{
    s.to_owned()
}

/// `a` followed by `b`.
pub fn concat2(a: &str, b: &str) -> (r: String)
    ensures
        r@ == a@ + b@,
{
    let mut r = a.to_owned();
    r.push_str(b);
    r
}

/// `a`, `b` and `c`, one after another.
pub fn concat3(a: &str, b: &str, c: &str) -> (r: String)
    ensures
        r@ == a@ + b@ + c@,
{
    let mut r = a.to_owned();
    r.push_str(b);
    r.push_str(c);
    r
}

/// A copy of an optional string.
pub fn copy_opt(o: &Option<String>) -> (r: Option<String>)
    ensures
        r == *o,
{
    match o {
        Some(s) => Some(s.clone()),
        None => None,
    }
}

/// Whether two optional strings hold the same text, or both none.
pub fn same_opt(a: &Option<String>, b: &Option<String>) -> (r: bool)
    ensures
        r == (text_opt(*a) == text_opt(*b)),
{
    match (a, b) {
        (Some(x), Some(y)) => same_str(x.as_str(), y.as_str()),
        (None, None) => true,
        _ => false,
    }
}

// ---------------------------------------------------------------------------
// White space
// ---------------------------------------------------------------------------

pub fn is_white_space(c: char) -> (r: bool)
    ensures
        r == white_space(c),
{
    ('\u{9}' <= c && c <= '\u{d}') || c == ' ' || c == '\u{85}' || c == '\u{a0}' || c == '\u{1680}'
        || ('\u{2000}' <= c && c <= '\u{200a}') || c == '\u{2028}' || c == '\u{2029}' || c
        == '\u{202f}' || c == '\u{205f}' || c == '\u{3000}'
}

/// The part of `s` without leading white space.
pub fn trim_start_of(s: &[char]) -> (r: &[char])
    ensures
        r@ == trim_start(s@),
{
    let mut i: usize = 0;
    assert(s@.subrange(0, s@.len() as int) == s@);
    while i < s.len() && is_white_space(s[i])
        invariant
            i <= s.len(),
            trim_start(s@) == trim_start(s@.subrange(i as int, s@.len() as int)),
        decreases s.len() - i,
    {
        assert(s@.subrange(i as int, s@.len() as int).drop_first() == s@.subrange(
            i + 1,
            s@.len() as int,
        ));
        i = i + 1;
    }
    slice_subrange(s, i, s.len())
}

/// The part of `s` without trailing white space.
pub fn trim_end_of(s: &[char]) -> (r: &[char])
    ensures
        r@ == trim_end(s@),
{
    let mut n: usize = s.len();
    assert(s@.subrange(0, s@.len() as int) == s@);
    while n > 0 && is_white_space(s[n - 1])
        invariant
            n <= s.len(),
            trim_end(s@) == trim_end(s@.subrange(0, n as int)),
        decreases n,
    {
        assert(s@.subrange(0, n as int).drop_last() == s@.subrange(0, n - 1));
        n = n - 1;
    }
    slice_subrange(s, 0, n)
}

/// The part of `s` without the white space around it.
pub fn trim_of(s: &[char]) -> (r: &[char])
    ensures
        r@ == trim(s@),
{
    trim_end_of(trim_start_of(s))
}

/// A copy of a string without the white space around it.
pub fn trimmed(s: &str) -> (r: String)
    ensures
        r@ == trim(s@),
{
    let v = chars_of(s);
    string_of(trim_of(&v))
}

/// The part of `s` without the `c`s before it.
pub fn trim_char_start_of(s: &[char], c: char) -> (r: &[char])
    ensures
        r@ == trim_char_start(s@, c),
{
    let mut i: usize = 0;
    assert(s@.subrange(0, s@.len() as int) == s@);
    while i < s.len() && s[i] == c
        invariant
            i <= s.len(),
            trim_char_start(s@, c) == trim_char_start(
                s@.subrange(i as int, s@.len() as int),
                c,
            ),
        decreases s.len() - i,
    {
        assert(s@.subrange(i as int, s@.len() as int).drop_first() == s@.subrange(
            i + 1,
            s@.len() as int,
        ));
        i = i + 1;
    }
    slice_subrange(s, i, s.len())
}

/// The part of `s` without the `c`s behind it.
pub fn trim_char_end_of(s: &[char], c: char) -> (r: &[char])
    ensures
        r@ == trim_char_end(s@, c),
{
    let mut n: usize = s.len();
    assert(s@.subrange(0, s@.len() as int) == s@);
    while n > 0 && s[n - 1] == c
        invariant
            n <= s.len(),
            trim_char_end(s@, c) == trim_char_end(s@.subrange(0, n as int), c),
        decreases n,
    {
        assert(s@.subrange(0, n as int).drop_last() == s@.subrange(0, n - 1));
        n = n - 1;
    }
    slice_subrange(s, 0, n)
}

// ---------------------------------------------------------------------------
// Searching
// ---------------------------------------------------------------------------

/// Where `c` first occurs at or after `from`; the length where it does not.
pub fn index_of(s: &[char], c: char, from: usize) -> (r: usize)
    requires
        from <= s.len(),
    ensures
        r == index_from(s@, c, from as int),
        from <= r <= s.len(),
        r < s.len() ==> s@[r as int] == c,
        forall|j: int| from <= j < r ==> s@[j] != c,
{
    let mut i: usize = from;
    while i < s.len()
        invariant
            from <= i <= s.len(),
            index_from(s@, c, from as int) == index_from(s@, c, i as int),
            forall|j: int| from <= j < i ==> s@[j] != c,
        decreases s.len() - i,
    {
        if s[i] == c {
            return i;
        }
        i = i + 1;
    }
    i
}

/// Whether `p` stands in `s` at `i`.
pub fn has_at(s: &[char], p: &[char], i: usize) -> (r: bool)
    requires
        i <= s.len(),
    ensures
        r == occurs_at(s@, p@, i as int),
{
    if p.len() > s.len() - i {
        return false;
    }
    for k in 0..p.len()
        invariant
            i <= s.len(),
            p.len() <= s.len() - i,
            forall|j: int| 0 <= j < k ==> s@[i + j] == p@[j],
    {
        if s[i + k] != p[k] {
            assert(s@.subrange(i as int, i + p.len())[k as int] != p@[k as int]);
            return false;
        }
    }
    assert(s@.subrange(i as int, i + p.len()) == p@);
    true
}

/// Where `p` first occurs in `s` at or after `from`.
pub fn find_at(s: &[char], p: &[char], from: usize) -> (r: Option<usize>)
    requires
        from <= s.len(),
    ensures
        match find_from(s@, p@, from as int) {
            Some(i) => r == Some(i as usize) && from <= i && i + p.len() <= s.len(),
            None => r is None,
        },
{
    let mut i: usize = from;
    while i < s.len() && p.len() <= s.len() - i
        invariant
            from <= i <= s.len(),
            find_from(s@, p@, from as int) == find_from(s@, p@, i as int),
        decreases s.len() - i,
    {
        if has_at(s, p, i) {
            return Some(i);
        }
        i = i + 1;
    }
    if i == s.len() && p.len() == 0 {
        assert(s@.subrange(i as int, i as int) == p@);
        return Some(i);
    }
    None
}

/// Where a first occurrence lies.
pub proof fn lemma_find_range(s: Seq<char>, p: Seq<char>, from: int)
    requires
        0 <= from,
    ensures
        find_from(s, p, from) matches Some(i) ==> from <= i && occurs_at(s, p, i),
    decreases s.len() + 1 - from,
{
    if from + p.len() <= s.len() && !occurs_at(s, p, from) {
        lemma_find_range(s, p, from + 1);
    }
}

/// Where a last occurrence lies.
pub proof fn lemma_rfind_range(s: Seq<char>, p: Seq<char>, to: int)
    ensures
        rfind_to(s, p, to) matches Some(i) ==> 0 <= i <= to && occurs_at(s, p, i),
    decreases to + 1,
{
    if to >= 0 && !occurs_at(s, p, to) {
        lemma_rfind_range(s, p, to - 1);
    }
}

/// What stands before and behind the first `p` in `s`.
pub fn cut<'a>(s: &'a [char], p: &str) -> (r: Option<(&'a [char], &'a [char])>)
    ensures
        match cut_once(s@, p@) {
            Some(want) => r matches Some(got) && got.0@ == want.0 && got.1@ == want.1,
            None => r is None,
        },
{
    let pat = chars_of(p);
    match find_at(s, &pat, 0) {
        Some(i) => Some((slice_subrange(s, 0, i), slice_subrange(s, i + pat.len(), s.len()))),
        None => None,
    }
}

/// What stands before and behind the last `p` in `s`.
pub fn rcut<'a>(s: &'a [char], p: &str) -> (r: Option<(&'a [char], &'a [char])>)
    ensures
        match rcut_once(s@, p@) {
            Some(want) => r matches Some(got) && got.0@ == want.0 && got.1@ == want.1,
            None => r is None,
        },
{
    let pat = chars_of(p);
    let mut i: usize = s.len();
    loop
        invariant
            i <= s.len(),
            pat@ == p@,
            rfind_to(s@, p@, s@.len() as int) == rfind_to(s@, p@, i as int),
        decreases i,
    {
        if has_at(s, &pat, i) {
            return Some((slice_subrange(s, 0, i), slice_subrange(s, i + pat.len(), s.len())));
        }
        if i == 0 {
            assert(rfind_to(s@, p@, -1) is None);
            return None;
        }
        i = i - 1;
    }
}

/// `s` with `by` in place of each `p`.
pub fn replace_all(s: &[char], p: &str, by: &str) -> (r: String)
    requires
        p@.len() > 0,
    ensures
        r@ == replaced(s@, p@, by@),
{
    let pat = chars_of(p);
    let mut out = String::new();
    let mut from: usize = 0;
    assert(Seq::<char>::empty() + replaced_from(s@, p@, by@, 0) == replaced_from(s@, p@, by@, 0));
    loop
        invariant
            from <= s.len(),
            pat@ == p@,
            p@.len() > 0,
            out@ + replaced_from(s@, p@, by@, from as int) == replaced(s@, p@, by@),
        decreases s.len() - from,
    {
        let ghost before = out@;
        match find_at(s, &pat, from) {
            Some(i) => {
                push_chars(&mut out, slice_subrange(s, from, i));
                out.push_str(by);
                let ghost piece = s@.subrange(from as int, i as int);
                let next: usize = i + pat.len();
                let ghost rest = replaced_from(s@, p@, by@, next as int);
                assert(before + piece + by@ + rest == before + (piece + by@ + rest));
                from = next;
            },
            None => {
                push_chars(&mut out, slice_subrange(s, from, s.len()));
                return out;
            },
        }
    }
}

/// Whether `p` occurs in `s`.
pub fn contains_chars(s: &[char], p: &[char]) -> (r: bool)
    ensures
        r == contains(s@, p@),
{
    find_at(s, p, 0).is_some()
}

pub fn starts_with_chars(s: &[char], p: &[char]) -> (r: bool)
    ensures
        r == starts_with(s@, p@),
{
    has_at(s, p, 0)
}

pub fn ends_with_chars(s: &[char], p: &[char]) -> (r: bool)
    ensures
        r == ends_with(s@, p@),
{
    if p.len() > s.len() {
        return false;
    }
    has_at(s, p, s.len() - p.len())
}

/// The pieces of `s` separated by `c`.
pub fn split_on(s: &[char], c: char) -> (r: Vec<Vec<char>>)
    ensures
        r.len() > 0,
        r.len() == split(s@, c).len(),
        forall|i: int| 0 <= i < r.len() ==> #[trigger] r@[i]@ == split(s@, c)[i],
{
    let mut out: Vec<Vec<char>> = Vec::new();
    let mut from: usize = 0;
    let ghost all = split(s@, c);
    assert(all == Seq::<Seq<char>>::empty() + split_from(s@, c, 0));
    loop
        invariant_except_break
            all == Seq::new(out@.len(), |i: int| out@[i]@) + split_from(s@, c, from as int),
        invariant
            from <= s.len(),
            all == split(s@, c),
        ensures
            out.len() > 0,
            all == Seq::new(out@.len(), |i: int| out@[i]@),
        decreases s.len() - from,
    {
        let end = index_of(s, c, from);
        let piece = copy_chars(slice_subrange(s, from, end));
        let ghost before = Seq::new(out@.len(), |i: int| out@[i]@);
        let ghost text = piece@;
        out.push(piece);
        proof {
            assert(Seq::new(out@.len(), |i: int| out@[i]@) == before.push(text));
        }
        if end >= s.len() {
            assert(split_from(s@, c, from as int) == seq![text]);
            assert(before + seq![text] == before.push(text));
            break;
        }
        assert(split_from(s@, c, from as int) == seq![text] + split_from(s@, c, end + 1));
        assert(before + (seq![text] + split_from(s@, c, end + 1)) == before.push(text)
            + split_from(s@, c, end + 1));
        from = end + 1;
    }
    assert forall|i: int| 0 <= i < out.len() implies #[trigger] out@[i]@ == split(s@, c)[i] by {
        assert(all[i] == out@[i]@);
    }
    out
}

/// A copy of a list of texts.
pub fn copy_texts(v: &Vec<String>) -> (r: Vec<String>)
    ensures
        texts(r@) == texts(v@),
{
    let mut r: Vec<String> = Vec::new();
    for i in 0..v.len()
        invariant
            texts(r@) == texts(v@).subrange(0, i as int),
    {
        push_text(&mut r, copy_str(v[i].as_str()));
    }
    assert(texts(v@).subrange(0, v@.len() as int) == texts(v@));
    r
}

/// A copy of some characters.
pub fn copy_chars(s: &[char]) -> (r: Vec<char>)
    ensures
        r@ == s@,
{
    let mut v: Vec<char> = Vec::new();
    for i in 0..s.len()
        invariant
            v@ == s@.subrange(0, i as int),
    {
        v.push(s[i]);
        assert(s@.subrange(0, i + 1) == s@.subrange(0, i as int).push(s@[i as int]));
    }
    assert(s@.subrange(0, s@.len() as int) == s@);
    v
}

/// The lines of `s`.
pub fn lines_of(s: &[char]) -> (r: Vec<Vec<char>>)
    ensures
        r.len() == lines(s@).len(),
        forall|i: int| 0 <= i < r.len() ==> #[trigger] r@[i]@ == lines(s@)[i],
{
    let pieces = split_on(s, '\n');
    let ghost want = lines(s@);
    let n = pieces.len();
    assert(split(s@, '\n').last() == pieces@[n - 1]@);
    let mut out: Vec<Vec<char>> = Vec::new();
    let last_empty = pieces[n - 1].len() == 0;
    for i in 0..n
        invariant
            n == pieces.len(),
            n == split(s@, '\n').len(),
            n > 0,
            last_empty == (split(s@, '\n').last().len() == 0),
            want == lines(s@),
            forall|j: int| 0 <= j < n ==> #[trigger] pieces@[j]@ == split(s@, '\n')[j],
            out.len() == (if i == n && last_empty { i - 1 } else { i as int }),
            forall|j: int| 0 <= j < out.len() ==> #[trigger] out@[j]@ == want[j],
    {
        let p = &pieces[i];
        if i < n - 1 {
            let m = p.len();
            if m > 0 && p[m - 1] == '\r' {
                assert(p@.subrange(0, m - 1) == p@.drop_last());
                out.push(copy_chars(slice_subrange(p, 0, m - 1)));
            } else {
                out.push(copy_chars(p));
            }
            assert(want[i as int] == chomp(split(s@, '\n')[i as int]));
        } else if !last_empty {
            out.push(copy_chars(p));
        }
    }
    out
}

// ---------------------------------------------------------------------------
// Numbers
// ---------------------------------------------------------------------------

/// Appends the decimal notation of `n`.
pub fn push_dec(s: &mut String, n: u64)
    ensures
        final(s)@ == old(s)@ + dec(n as nat),
    decreases n,
{
    if n < 10 {
        s.push(digit_char(n as u8));
    } else {
        let ghost before = s@;
        push_dec(s, n / 10);
        s.push(digit_char((n % 10) as u8));
        assert(before + dec(n as nat) == (before + dec((n / 10) as nat)).push(
            digit((n % 10) as nat),
        ));
    }
}

fn digit_char(d: u8) -> (c: char)
    requires
        d < 10,
    ensures
        c == digit(d as nat),
{
    (48 + d) as char
}

/// The decimal notation of `n`.
pub fn dec_string(n: u64) -> (s: String)
    ensures
        s@ == dec(n as nat),
{
    let mut s = String::new();
    push_dec(&mut s, n);
    s
}

/// The decimal notation of a signed number.
pub fn int_string(n: i64) -> (s: String)
    ensures
        s@ == dec_int(n as int),
{
    let mut s = String::new();
    if n < 0 {
        s.push('-');
        let m: u64 = if n == i64::MIN {
            0x8000_0000_0000_0000
        } else {
            (-n) as u64
        };
        push_dec(&mut s, m);
        assert(s@ == seq!['-'] + dec(m as nat));
    } else {
        push_dec(&mut s, n as u64);
    }
    s
}

pub proof fn lemma_dec_len(n: nat)
    ensures
        dec(n).len() >= 1,
        n < 10 ==> dec(n).len() == 1,
        10 <= n < 100 ==> dec(n).len() == 2,
        n >= 100 ==> dec(n).len() >= 3,
    decreases n,
{
    if n >= 10 {
        lemma_dec_len(n / 10);
    }
}

/// Where a character first occurs.
pub proof fn lemma_index(s: Seq<char>, c: char, from: int, at: int)
    requires
        0 <= from <= at < s.len(),
        s[at] == c,
        forall|i: int| from <= i < at ==> s[i] != c,
    ensures
        index_from(s, c, from) == at,
    decreases at - from,
{
    if from < at {
        lemma_index(s, c, from + 1, at);
    }
}

/// White space behind a text adds no word.
pub proof fn space_behind_adds_no_word(s: Seq<char>, c: char)
    requires
        white_space(c),
    ensures
        words(s.push(c)) == words(s),
{
    lemma_words_prefix(s, c, s.len());
    assert(s.push(c)[s.len() as int] == c);
}

proof fn lemma_words_prefix(s: Seq<char>, c: char, n: nat)
    requires
        n <= s.len(),
    ensures
        words_to(s.push(c), n) == words_to(s, n),
    decreases n,
{
    if n > 0 {
        lemma_words_prefix(s, c, (n - 1) as nat);
        assert(s.push(c)[n - 1] == s[n - 1]);
    }
}

/// White space before a text adds no word.
pub proof fn space_before_adds_no_word(s: Seq<char>, c: char)
    requires
        white_space(c),
    ensures
        words(seq![c] + s) == words(s),
{
    lemma_words_shift(s, c, s.len());
}

proof fn lemma_words_shift(s: Seq<char>, c: char, n: nat)
    requires
        white_space(c),
        n <= s.len(),
    ensures
        words_to(seq![c] + s, n + 1) == words_to(s, n),
    decreases n,
{
    let t = seq![c] + s;
    if n == 0 {
        assert(t[0] == c);
        assert(words_to(t, 0) == (Seq::<Seq<char>>::empty(), Seq::<char>::empty()));
        assert(words_to(t, 1) == (Seq::<Seq<char>>::empty(), Seq::<char>::empty()));
    } else {
        lemma_words_shift(s, c, (n - 1) as nat);
        assert(t[n as int] == s[n - 1]);
    }
}

/// The decimal notation of a number is digits, and denotes the number.
pub proof fn lemma_dec_digits(n: nat)
    ensures
        all_digits(dec(n)),
        value_of(dec(n)) == n,
    decreases n,
{
    if n >= 10 {
        lemma_dec_digits(n / 10);
        assert(dec(n).drop_last() == dec(n / 10));
        assert(digit(n % 10) as nat == 48 + n % 10);
    } else {
        assert(digit(n) as nat == 48 + n);
        assert(dec(n).drop_last() == Seq::<char>::empty());
        assert(value_of(Seq::<char>::empty()) == 0);
    }
}

/// A number that is written is read again, unless it is too large.
pub proof fn numbers_survive(n: nat, max: nat)
    ensures
        read_unsigned(dec(n), max) == (if n <= max {
            Some(n)
        } else {
            None
        }),
{
    lemma_dec_digits(n);
    assert(is_digit(dec(n)[0]));
}

/// Appends the decimal notation of `n` with at least two digits.
pub fn push_dec2(s: &mut String, n: u64)
    ensures
        final(s)@ == old(s)@ + dec_padded(n as nat, 2),
{
    proof {
        lemma_dec_len(n as nat);
    }
    let ghost before = s@;
    if n < 10 {
        s.push('0');
        assert(Seq::new(1nat, |i: int| '0') == seq!['0']);
        push_dec(s, n);
        assert(s@ == before + (seq!['0'] + dec(n as nat)));
    } else {
        push_dec(s, n);
    }
}

pub proof fn lemma_value_prefix(s: Seq<char>, n: int)
    requires
        0 <= n <= s.len(),
    ensures
        value_of(s.subrange(0, n)) <= value_of(s),
    decreases s.len() - n,
{
    if n < s.len() {
        lemma_value_prefix(s, n + 1);
        assert(s.subrange(0, n + 1).drop_last() == s.subrange(0, n));
        let a = value_of(s.subrange(0, n));
        assert(a <= a * 10 + (s.subrange(0, n + 1).last() as nat - 48) as nat) by (nonlinear_arith);
    } else {
        assert(s.subrange(0, n) == s);
    }
}

/// The number that a sequence of digits denotes, if it is at most `max`.
pub fn digits_value(s: &[char], max: u64) -> (r: Option<u64>)
    ensures
        match r {
            Some(n) => all_digits(s@) && value_of(s@) == n && n <= max,
            None => !(all_digits(s@) && value_of(s@) <= max),
        },
{
    if s.len() == 0 {
        return None;
    }
    let mut n: u64 = 0;
    let mut i: usize = 0;
    assert(s@.subrange(0, 0) == Seq::<char>::empty());
    while i < s.len()
        invariant
            i <= s.len(),
            s.len() > 0,
            n <= max,
            n == value_of(s@.subrange(0, i as int)),
            forall|j: int| 0 <= j < i ==> is_digit(#[trigger] s@[j]),
        decreases s.len() - i,
    {
        let c = s[i];
        if !('0' <= c && c <= '9') {
            return None;
        }
        let d: u64 = (c as u32 - 48) as u64;
        proof {
            assert(s@.subrange(0, i + 1).drop_last() == s@.subrange(0, i as int));
            lemma_value_prefix(s@, i + 1);
            assert(value_of(s@.subrange(0, i + 1)) == n as nat * 10 + d as nat);
        }
        if n > max / 10 {
            assert(n as nat * 10 > max) by (nonlinear_arith)
                requires
                    n > max / 10,
            ;
            return None;
        }
        let t: u64 = n * 10;
        if d > max - t {
            return None;
        }
        n = t + d;
        i = i + 1;
    }
    assert(s@.subrange(0, s@.len() as int) == s@);
    Some(n)
}

/// Reads an unsigned number up to `max`.
pub fn parse_unsigned(s: &[char], max: u64) -> (r: Option<u64>)
    ensures
        match r {
            Some(n) => read_unsigned(s@, max as nat) == Some(n as nat) && n <= max,
            None => read_unsigned(s@, max as nat) is None,
        },
{
    if s.len() > 0 && s[0] == '+' {
        assert(s@.subrange(1, s@.len() as int) == s@.drop_first());
        digits_value(slice_subrange(s, 1, s.len()), max)
    } else {
        digits_value(s, max)
    }
}

/// Reads a signed 64-bit number.
pub fn parse_signed(s: &[char]) -> (r: Option<i64>)
    ensures
        match r {
            Some(n) => read_signed(s@) == Some(n as int),
            None => read_signed(s@) is None,
        },
{
    if s.len() > 0 && s[0] == '-' {
        assert(s@.subrange(1, s@.len() as int) == s@.drop_first());
        match digits_value(slice_subrange(s, 1, s.len()), 0x8000_0000_0000_0000) {
            Some(n) => if n == 0x8000_0000_0000_0000 {
                Some(i64::MIN)
            } else {
                Some(-(n as i64))
            },
            None => None,
        }
    } else {
        match parse_unsigned(s, 0x7fff_ffff_ffff_ffff) {
            Some(n) => Some(n as i64),
            None => None,
        }
    }
}

/// The lower-case form of an ASCII letter.
pub fn lower_char(c: char) -> (r: char)
    ensures
        r == lower(c),
{
    if 'A' <= c && c <= 'Z' {
        (c as u8 + 32) as char
    } else {
        c
    }
}

/// The characters with ASCII letters in lower case.
pub fn lower_chars(s: &[char]) -> (r: Vec<char>)
    ensures
        r@ == lower_all(s@),
{
    let mut v: Vec<char> = Vec::new();
    for i in 0..s.len()
        invariant
            v@ == lower_all(s@).subrange(0, i as int),
    {
        v.push(lower_char(s[i]));
        assert(lower_all(s@).subrange(0, i + 1) == lower_all(s@).subrange(0, i as int).push(
            lower(s@[i as int]),
        ));
    }
    assert(lower_all(s@).subrange(0, s@.len() as int) == lower_all(s@));
    v
}

/// Appends a string to a list.
pub fn push_text(v: &mut Vec<String>, s: String)
    ensures
        texts(final(v)@) == texts(old(v)@).push(s@),
{
    let ghost before = v@;
    let ghost t = s@;
    v.push(s);
    assert(texts(v@) == texts(before).push(t));
}

/// The words of a text.
pub fn split_words(s: &str) -> (out: Vec<String>)
    ensures
        texts(out@) == words(s@),
{
    let c = chars_of(s);
    let mut out: Vec<String> = Vec::new();
    let mut word: Vec<char> = Vec::new();
    assert(texts(out@) == Seq::<Seq<char>>::empty());
    for i in 0..c.len()
        invariant
            c@ == s@,
            (texts(out@), word@) == words_to(s@, i as nat),
    {
        let ch = c[i];
        if !is_white_space(ch) {
            word.push(ch);
        } else if word.len() > 0 {
            push_text(&mut out, string_of(&word));
            word = Vec::new();
        }
    }
    if word.len() > 0 {
        push_text(&mut out, string_of(&word));
    }
    out
}

/// The strings one after another, with `sep` between each two.
pub fn join_strings(parts: &Vec<String>, sep: &str) -> (r: String)
    ensures
        r@ == join(texts(parts@), sep@),
{
    let mut out = String::new();
    assert(texts(parts@).subrange(0, 0) == Seq::<Seq<char>>::empty());
    for i in 0..parts.len()
        invariant
            out@ == join(texts(parts@).subrange(0, i as int), sep@),
    {
        let ghost all = texts(parts@);
        let ghost next = all.subrange(0, i + 1);
        assert(next.drop_last() == all.subrange(0, i as int));
        assert(next.last() == parts@[i as int]@);
        if i > 0 {
            out.push_str(sep);
        }
        out.push_str(parts[i].as_str());
        assert(out@ == join(next, sep@));
    }
    assert(texts(parts@).subrange(0, parts@.len() as int) == texts(parts@));
    out
}

proof fn lemma_trim_start(s: Seq<char>) -> (k: int)
    ensures
        0 <= k <= s.len(),
        trim_start(s) == s.subrange(k, s.len() as int),
        forall|i: int| 0 <= i < k ==> white_space(#[trigger] s[i]),
        k < s.len() ==> !white_space(s[k]),
    decreases s.len(),
{
    if s.len() > 0 && white_space(s[0]) {
        let t = s.drop_first();
        let k = lemma_trim_start(t);
        assert(t.subrange(k, t.len() as int) == s.subrange(k + 1, s.len() as int));
        assert forall|i: int| 0 <= i < k + 1 implies white_space(#[trigger] s[i]) by {
            if i > 0 {
                assert(s[i] == t[i - 1]);
            }
        }
        k + 1
    } else {
        assert(s.subrange(0, s.len() as int) == s);
        0
    }
}

proof fn lemma_trim_end(s: Seq<char>) -> (k: int)
    ensures
        0 <= k <= s.len(),
        trim_end(s) == s.subrange(0, k),
        forall|i: int| k <= i < s.len() ==> white_space(#[trigger] s[i]),
        k > 0 ==> !white_space(s[k - 1]),
    decreases s.len(),
{
    if s.len() > 0 && white_space(s.last()) {
        let t = s.drop_last();
        let k = lemma_trim_end(t);
        assert(t.subrange(0, k) == s.subrange(0, k));
        assert forall|i: int| k <= i < s.len() implies white_space(#[trigger] s[i]) by {
            if i < t.len() {
                assert(s[i] == t[i]);
            }
        }
        k
    } else {
        assert(s.subrange(0, s.len() as int) == s);
        s.len() as int
    }
}

/// Trimming takes the white space off both ends and nothing else: what is left is
/// a piece of the text, all around it is white space, and it neither begins nor
/// ends with any.
pub proof fn trimming_takes_white_space(s: Seq<char>) -> (ends: (int, int))
    ensures
        0 <= ends.0 <= ends.1 <= s.len(),
        trim(s) == s.subrange(ends.0, ends.1),
        forall|i: int| 0 <= i < ends.0 ==> white_space(#[trigger] s[i]),
        forall|i: int| ends.1 <= i < s.len() ==> white_space(#[trigger] s[i]),
        trim(s).len() > 0 ==> !white_space(trim(s)[0]) && !white_space(trim(s).last()),
{
    let a = lemma_trim_start(s);
    let t = trim_start(s);
    let k = lemma_trim_end(t);
    assert(t.subrange(0, k) == s.subrange(a, a + k));
    assert forall|i: int| a + k <= i < s.len() implies white_space(#[trigger] s[i]) by {
        assert(s[i] == t[i - a]);
    }
    if k > 0 {
        assert(trim(s)[0] == t[0]);
        assert(trim(s).last() == t[k - 1]);
    }
    (a, a + k)
}

/// Blanks, tabs and line ends are white space; letters, digits and signs are not.
pub proof fn white_space_is_blank(c: char)
    ensures
        c == ' ' || c == '\t' || c == '\n' || c == '\r' ==> white_space(c),
        '!' <= c <= '~' ==> !white_space(c),
{
}

/// A text is found where it first occurs.
pub proof fn a_text_is_found_where_it_first_occurs(s: Seq<char>, p: Seq<char>, from: int)
    requires
        0 <= from <= s.len(),
    ensures
        find_from(s, p, from) matches Some(i) ==> from <= i && i + p.len() <= s.len() && s.subrange(
            i,
            i + p.len(),
        ) == p && forall|j: int| from <= j < i ==> #[trigger] s.subrange(j, j + p.len()) != p,
        find_from(s, p, from) is None ==> forall|j: int|
            from <= j && j + p.len() <= s.len() ==> #[trigger] s.subrange(j, j + p.len()) != p,
    decreases s.len() + 1 - from,
{
    if from + p.len() <= s.len() && !occurs_at(s, p, from) {
        if from < s.len() {
            a_text_is_found_where_it_first_occurs(s, p, from + 1);
        } else {
            assert(s.subrange(from, from + p.len()) == p);
        }
    }
}

/// A text that is cut falls apart into what stands before the first occurrence
/// and what stands behind it.
pub proof fn a_cut_falls_apart(s: Seq<char>, p: Seq<char>)
    ensures
        cut_once(s, p) matches Some((a, b)) ==> s == a + p + b,
        rcut_once(s, p) matches Some((a, b)) ==> s == a + p + b,
{
    a_text_is_found_where_it_first_occurs(s, p, 0);
    if let Some(i) = find_from(s, p, 0) {
        assert(s == s.subrange(0, i) + p + s.subrange(i + p.len(), s.len() as int));
    }
    lemma_rfind_range(s, p, s.len() as int);
    if let Some(i) = rfind_to(s, p, s.len() as int) {
        lemma_rfind_last(s, p, s.len() as int);
        assert(s == s.subrange(0, i) + p + s.subrange(i + p.len(), s.len() as int));
    }
}

proof fn lemma_rfind_last(s: Seq<char>, p: Seq<char>, to: int)
    ensures
        rfind_to(s, p, to) matches Some(i) ==> occurs_at(s, p, i) && i <= to && forall|j: int|
            i < j <= to ==> !#[trigger] occurs_at(s, p, j),
        rfind_to(s, p, to) is None ==> forall|j: int| 0 <= j <= to ==> !#[trigger] occurs_at(s, p, j),
    decreases to + 1,
{
    if to >= 0 && !occurs_at(s, p, to) {
        lemma_rfind_last(s, p, to - 1);
    }
}

/// Cut from behind, a text falls apart at the last occurrence.
pub proof fn a_cut_from_behind_is_the_last(s: Seq<char>, p: Seq<char>, j: int)
    requires
        occurs_at(s, p, j),
    ensures
        rcut_once(s, p) matches Some((a, _)) && j <= a.len(),
        cut_once(s, p) matches Some((a, _)) && a.len() <= j,
{
    lemma_rfind_last(s, p, s.len() as int);
    lemma_rfind_range(s, p, s.len() as int);
    a_text_is_found_where_it_first_occurs(s, p, 0);
    assert(s.subrange(j, j + p.len()) == p);
}

/// A number is written with its digits, the highest first, and padded with
/// noughts in front.
pub proof fn numbers_are_written_in_decimal(n: nat, d: nat)
    requires
        d < 10,
    ensures
        n > 0 ==> dec(10 * n + d) == dec(n).push(('0' as u32 + d) as char),
        dec(d) == seq![('0' as u32 + d) as char],
        dec_padded(d, 2) == seq!['0', ('0' as u32 + d) as char],
        n >= 10 ==> dec_padded(n, 2) == dec(n),
{
    let m = 10 * n + d;
    assert(m / 10 == n && m % 10 == d);
    assert(dec(d).len() == 1);
    assert(dec_padded(d, 2) == seq!['0', ('0' as u32 + d) as char]);
    if n >= 10 {
        lemma_dec_len(n / 10);
    }
}

/// Capital letters become small ones, and nothing else changes.
pub proof fn capitals_become_small(c: char)
    ensures
        'A' <= c <= 'Z' ==> lower(c) as u32 == c as u32 + 32,
        !('A' <= c <= 'Z') ==> lower(c) == c,
{
}

/// Texts are joined with the separator between them, and only there.
pub proof fn texts_are_joined(parts: Seq<Seq<char>>, x: Seq<char>, sep: Seq<char>)
    ensures
        join(Seq::empty(), sep).len() == 0,
        join(seq![x], sep) == x,
        parts.len() > 0 ==> join(parts.push(x), sep) == join(parts, sep) + sep + x,
{
    if parts.len() > 0 {
        assert(parts.push(x).drop_last() == parts);
    }
}

} // verus!
