//! `file://` URIs and percent-encoding.

use vstd::prelude::*;
use vstd::slice::slice_subrange;
use vstd::string::*;
use vstd::utf8::{decode_utf8, encode_utf8, valid_utf8};

use crate::text::{
    bytes_of, chars_of, contains, contains_chars, copy_str, latin1, starts_with, starts_with_chars,
    string_of,
};

verus! {

/// What `String::from_utf8_lossy` makes of bytes that are no valid UTF-8.
pub uninterp spec fn replaced_text(bytes: Seq<u8>) -> Seq<char>;

/// The text of some bytes: what they encode, or what stands in for it.
pub open spec fn lossy_text(bytes: Seq<u8>) -> Seq<char> {
    if valid_utf8(bytes) {
        decode_utf8(bytes)
    } else {
        replaced_text(bytes)
    }
}

/// `String::from_utf8_lossy`: valid UTF-8 gives the text that it encodes; the
/// text for other bytes, with its replacement characters, is only named.
#[verifier::external_body]
pub(crate) fn lossy_string(bytes: &[u8]) -> (s: String)
    ensures
        s@ == (if valid_utf8(bytes@) {
            decode_utf8(bytes@)
        } else {
            replaced_text(bytes@)
        }),
{
    String::from_utf8_lossy(bytes).into_owned()
}

/// The value of a hexadecimal digit.
pub open spec fn hex_value(b: u8) -> Option<nat> {
    if 48 <= b <= 57 {
        Some((b - 48) as nat)
    } else if 65 <= b <= 70 {
        Some((b - 55) as nat)
    } else if 97 <= b <= 102 {
        Some((b - 87) as nat)
    } else {
        None
    }
}

/// The byte that the two characters behind a `%` give: two hexadecimal
/// digits, or one with a `+` before it.
pub open spec fn pair_value(a: u8, b: u8) -> Option<u8> {
    match (hex_value(a), hex_value(b)) {
        (Some(x), Some(y)) => Some((x * 16 + y) as u8),
        (None, Some(y)) => if a == 43 {
            Some(y as u8)
        } else {
            None
        },
        _ => None,
    }
}

/// The bytes from `i` on with their percent escapes resolved.
pub open spec fn unescaped_from(b: Seq<u8>, i: int) -> Seq<u8>
    decreases b.len() - i,
{
    if i < 0 || i >= b.len() {
        Seq::empty()
    } else if b[i] == 37 && i + 2 < b.len() && pair_value(b[i + 1], b[i + 2]) is Some {
        seq![pair_value(b[i + 1], b[i + 2])->0] + unescaped_from(b, i + 3)
    } else {
        seq![b[i]] + unescaped_from(b, i + 1)
    }
}

/// The text with its percent escapes resolved.
pub open spec fn percent_decoded(s: Seq<char>) -> Seq<char> {
    lossy_text(unescaped_from(encode_utf8(s), 0))
}

fn hex_digit(b: u8) -> (r: Option<u8>)
    ensures
        match hex_value(b) {
            Some(v) => r == Some(v as u8) && v < 16,
            None => r is None,
        },
{
    if 48 <= b && b <= 57 {
        Some(b - 48)
    } else if 65 <= b && b <= 70 {
        Some(b - 55)
    } else if 97 <= b && b <= 102 {
        Some(b - 87)
    } else {
        None
    }
}

fn hex_pair(a: u8, b: u8) -> (r: Option<u8>)
    ensures
        r == pair_value(a, b),
{
    match (hex_digit(a), hex_digit(b)) {
        (Some(x), Some(y)) => Some(x * 16 + y),
        (None, Some(y)) => if a == 43 {
            Some(y)
        } else {
            None
        },
        _ => None,
    }
}

/// The bytes with their percent escapes resolved.
pub fn unescape(b: &[u8]) -> (out: Vec<u8>)
    ensures
        out@ == unescaped_from(b@, 0),
{
    let mut out: Vec<u8> = Vec::new();
    let mut i: usize = 0;
    while i < b.len()
        invariant
            i <= b.len(),
            out@ + unescaped_from(b@, i as int) == unescaped_from(b@, 0),
        decreases b.len() - i,
    {
        let ghost before = out@;
        if b[i] == 37 && b.len() - i > 2 {
            if let Some(v) = hex_pair(b[i + 1], b[i + 2]) {
                out.push(v);
                i = i + 3;
                assert(out@ + unescaped_from(b@, i as int) == before + (seq![v] + unescaped_from(
                    b@,
                    i as int,
                )));
                continue;
            }
        }
        out.push(b[i]);
        assert(out@ + unescaped_from(b@, i + 1) == before + (seq![b@[i as int]] + unescaped_from(
            b@,
            i + 1,
        )));
        i = i + 1;
    }
    out
}

/// The text with its percent escapes resolved. Bytes that are no UTF-8 then
/// are replaced as `String::from_utf8_lossy` does it.
pub fn percent_decode(s: &str) -> (r: String)
    ensures
        r@ == percent_decoded(s@),
{
    let b = bytes_of(s);
    let out = unescape(&b);
    lossy_string(&out)
}

/// Whether a byte stands for itself in a URI's path.
pub open spec fn is_unreserved(b: u8) -> bool {
    ||| 65 <= b <= 90
    ||| 97 <= b <= 122
    ||| 48 <= b <= 57
    ||| b == 47
    ||| b == 45
    ||| b == 95
    ||| b == 46
    ||| b == 126
}

/// The upper-case hexadecimal digit for `v`.
pub open spec fn upper_hex(v: int) -> u8 {
    if v < 10 {
        (48 + v) as u8
    } else {
        (55 + v) as u8
    }
}

/// A byte as it is written in a URI's path.
pub open spec fn escaped_byte(b: u8) -> Seq<u8> {
    if is_unreserved(b) {
        seq![b]
    } else {
        seq![37u8, upper_hex(b as int / 16), upper_hex(b as int % 16)]
    }
}

/// Bytes as they are written in a URI's path.
pub open spec fn escaped(b: Seq<u8>) -> Seq<u8>
    decreases b.len(),
{
    if b.len() == 0 {
        Seq::empty()
    } else {
        escaped(b.drop_last()) + escaped_byte(b.last())
    }
}

/// The `file://` URI of a path.
pub open spec fn uri_of(path: Seq<char>) -> Seq<char> {
    "file://"@ + latin1(escaped(encode_utf8(path)))
}

/// The path of a `file://` URI.
pub open spec fn path_of(uri: Seq<char>) -> Option<Seq<char>> {
    if starts_with(uri, "file://"@) {
        Some(percent_decoded(uri.subrange("file://"@.len() as int, uri.len() as int)))
    } else {
        None
    }
}

fn push_hex(out: &mut String, v: u8)
    requires
        v < 16,
    ensures
        final(out)@ == old(out)@.push(upper_hex(v as int) as char),
{
    let d: u8 = if v < 10 {
        48 + v
    } else {
        55 + v
    };
    out.push(d as char);
}

pub fn file_uri(path: &str) -> (out: String)
    ensures
        out@ == uri_of(path@),
{
    let b = bytes_of(path);
    let ghost prefix = "file://"@;
    let mut out = copy_str("file://");
    assert(b@.subrange(0, 0) == Seq::<u8>::empty());
    assert(prefix + latin1(Seq::<u8>::empty()) == prefix);
    for i in 0..b.len()
        invariant
            prefix == "file://"@,
            out@ == prefix + latin1(escaped(b@.subrange(0, i as int))),
    {
        let ghost done = escaped(b@.subrange(0, i as int));
        let c = b[i];
        assert(b@.subrange(0, i + 1).drop_last() == b@.subrange(0, i as int));
        let ghost before = out@;
        if (65 <= c && c <= 90) || (97 <= c && c <= 122) || (48 <= c && c <= 57) || c == 47 || c
            == 45 || c == 95 || c == 46 || c == 126 {
            out.push(c as char);
            assert(out@ == prefix + latin1(done + escaped_byte(c)));
        } else {
            out.push('%');
            push_hex(&mut out, c / 16);
            push_hex(&mut out, c % 16);
            assert(latin1(done + escaped_byte(c)) == latin1(done) + seq![
                '%',
                upper_hex(c as int / 16) as char,
                upper_hex(c as int % 16) as char,
            ]);
            assert(out@ == prefix + latin1(done + escaped_byte(c)));
        }
    }
    assert(b@.subrange(0, b@.len() as int) == b@);
    out
}

pub fn uri_to_path(uri: &str) -> (r: Option<String>)
    ensures
        match path_of(uri@) {
            Some(want) => r matches Some(got) && got@ == want,
            None => r is None,
        },
{
    let u = chars_of(uri);
    let prefix = chars_of("file://");
    if starts_with_chars(&u, &prefix) {
        let rest = string_of(slice_subrange(&u, prefix.len(), u.len()));
        Some(percent_decode(rest.as_str()))
    } else {
        None
    }
}

/// The local path that a source names: that of a `file://` URI, or the name
/// itself where it is no URI.
pub open spec fn local_path(uri: Seq<char>) -> Option<Seq<char>> {
    if starts_with(uri, "file://"@) {
        path_of(uri)
    } else if contains(uri, "://"@) {
        None
    } else {
        Some(uri)
    }
}

pub fn path_from_uri(uri: &str) -> (r: Option<String>)
    ensures
        match local_path(uri@) {
            Some(want) => r matches Some(got) && got@ == want,
            None => r is None,
        },
{
    match uri_to_path(uri) {
        Some(p) => Some(p),
        None => {
            let u = chars_of(uri);
            if contains_chars(&u, &chars_of("://")) {
                None
            } else {
                Some(copy_str(uri))
            }
        },
    }
}

// ---------------------------------------------------------------------------
// Round trip
// ---------------------------------------------------------------------------

proof fn lemma_escaped_ascii(b: Seq<u8>)
    ensures
        forall|i: int| 0 <= i < escaped(b).len() ==> #[trigger] escaped(b)[i] < 128,
    decreases b.len(),
{
    if b.len() > 0 {
        lemma_escaped_ascii(b.drop_last());
        let front = escaped(b.drop_last());
        let last = escaped_byte(b.last());
        assert forall|i: int| 0 <= i < escaped(b).len() implies #[trigger] escaped(b)[i]
            < 128 by {
            if i < front.len() {
                assert(escaped(b)[i] == front[i]);
            } else {
                assert(escaped(b)[i] == last[i - front.len()]);
            }
        }
    }
}

proof fn lemma_unescape_head(b: u8, rest: Seq<u8>)
    ensures
        unescaped_from(escaped_byte(b) + rest, 0) == seq![b] + unescaped_from(
            escaped_byte(b) + rest,
            escaped_byte(b).len() as int,
        ),
{
    let all = escaped_byte(b) + rest;
    if is_unreserved(b) {
        assert(all[0] == b);
    } else {
        let x = upper_hex(b as int / 16);
        let y = upper_hex(b as int % 16);
        assert(all[0] == 37 && all[1] == x && all[2] == y);
        assert(hex_value(x) == Some((b / 16) as nat));
        assert(hex_value(y) == Some((b % 16) as nat));
        assert((b / 16) * 16 + b % 16 == b);
        assert(pair_value(x, y) == Some(b));
    }
}

proof fn lemma_unescape_shift(a: Seq<u8>, b: Seq<u8>, i: int)
    requires
        0 <= i <= b.len(),
    ensures
        unescaped_from(a + b, a.len() + i) == unescaped_from(b, i),
    decreases b.len() - i,
{
    let all = a + b;
    if i < b.len() {
        assert(all[a.len() + i] == b[i]);
        if i + 2 < b.len() {
            assert(all[a.len() + i + 1] == b[i + 1]);
            assert(all[a.len() + i + 2] == b[i + 2]);
            if b[i] == 37 && pair_value(b[i + 1], b[i + 2]) is Some {
                lemma_unescape_shift(a, b, i + 3);
            } else {
                lemma_unescape_shift(a, b, i + 1);
            }
        } else {
            lemma_unescape_shift(a, b, i + 1);
        }
    }
}

proof fn lemma_escaped_front(b: Seq<u8>)
    requires
        b.len() > 0,
    ensures
        escaped(b) == escaped_byte(b[0]) + escaped(b.drop_first()),
    decreases b.len(),
{
    if b.len() == 1 {
        assert(b.drop_last() == Seq::<u8>::empty());
        assert(b.drop_first() == Seq::<u8>::empty());
        assert(escaped(Seq::<u8>::empty()) == Seq::<u8>::empty());
        assert(Seq::<u8>::empty() + escaped_byte(b[0]) == escaped_byte(b[0])
            + Seq::<u8>::empty());
    } else {
        lemma_escaped_front(b.drop_last());
        assert(b.drop_last().drop_first() == b.drop_first().drop_last());
        assert(b.drop_last()[0] == b[0]);
        assert(b.drop_first().last() == b.last());
        assert(escaped_byte(b[0]) + escaped(b.drop_first().drop_last()) + escaped_byte(b.last())
            == escaped_byte(b[0]) + (escaped(b.drop_first().drop_last()) + escaped_byte(b.last())));
    }
}

proof fn lemma_unescape_escaped(b: Seq<u8>)
    ensures
        unescaped_from(escaped(b), 0) == b,
    decreases b.len(),
{
    if b.len() > 0 {
        let rest = b.drop_first();
        lemma_escaped_front(b);
        lemma_unescape_head(b[0], escaped(rest));
        lemma_unescape_shift(escaped_byte(b[0]), escaped(rest), 0);
        lemma_unescape_escaped(rest);
        assert(seq![b[0]] + rest == b);
    }
}

/// A path written as a URI is read back as it was, whatever characters it
/// holds.
pub proof fn path_survives_uri(path: Seq<char>)
    ensures
        path_of(uri_of(path)) == Some(path),
{
    let raw = encode_utf8(path);
    let e = escaped(raw);
    let uri = uri_of(path);
    let prefix = "file://"@;
    assert(uri.subrange(0, prefix.len() as int) == prefix);
    let rest = uri.subrange(prefix.len() as int, uri.len() as int);
    assert(rest == latin1(e));
    lemma_escaped_ascii(raw);
    assert(vstd::utf8::is_ascii_chars(rest)) by {
        assert forall|i: int| 0 <= i < rest.len() implies '\0' <= #[trigger] rest[i]
            <= '\u{7f}' by {
            assert(rest[i] == e[i] as char);
        }
    }
    vstd::utf8::is_ascii_chars_encode_utf8(rest);
    assert(encode_utf8(rest) == e) by {
        assert forall|i: int| 0 <= i < e.len() implies #[trigger] encode_utf8(rest)[i] == e[i] by {
            assert(rest[i] == e[i] as char);
        }
    }
    lemma_unescape_escaped(raw);
    vstd::utf8::encode_utf8_valid_utf8(path);
    vstd::utf8::encode_utf8_decode_utf8(path);
}

/// Whether a hint is an address on the web.
pub open spec fn on_the_web(hint: Seq<char>) -> bool {
    starts_with(hint, "http://"@) || starts_with(hint, "https://"@)
}

pub fn is_on_the_web(hint: &str) -> (r: bool)
    ensures
        r == on_the_web(hint@),
{
    let h = chars_of(hint);
    starts_with_chars(&h, &chars_of("http://")) || starts_with_chars(&h, &chars_of("https://"))
}

/// A path is left as it is, a file URI is decoded, and any other URI is no file.
pub proof fn only_files_have_paths(s: Seq<char>)
    ensures
        starts_with(s, "file://"@) ==> local_path(s) == path_of(s) && local_path(s) is Some,
        !starts_with(s, "file://"@) && contains(s, "://"@) ==> local_path(s) is None,
        !contains(s, "://"@) && !starts_with(s, "file://"@) ==> local_path(s) == Some(s),
        !starts_with(s, "file://"@) ==> path_of(s) is None,
        on_the_web(s) <==> starts_with(s, "http://"@) || starts_with(s, "https://"@),
{
}

/// A percent sign and two digits stand for one byte; anything else for itself.
pub proof fn escapes_stand_for_bytes(b: Seq<u8>, i: int)
    requires
        0 <= i < b.len(),
    ensures
        b[i] != 37 ==> unescaped_from(b, i) == seq![b[i]] + unescaped_from(b, i + 1),
        b[i] == 37 && i + 2 >= b.len() ==> unescaped_from(b, i) == seq![b[i]] + unescaped_from(
            b,
            i + 1,
        ),
        b[i] == 37 && i + 2 < b.len() ==> ((hex_value(b[i + 1]) is Some && hex_value(b[i + 2])
            is Some) ==> unescaped_from(b, i) == seq![
            (16 * hex_value(b[i + 1])->0 + hex_value(b[i + 2])->0) as u8,
        ] + unescaped_from(b, i + 3)),
{
}

} // verus!
