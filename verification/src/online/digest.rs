//! MD5 digests.

use vstd::prelude::*;

use crate::library::tracks::hex_digit;

verus! {

/// The MD5 digest of some bytes.
pub uninterp spec fn md5_digest(data: Seq<u8>) -> Seq<u8>;

/// `md5::Md5::digest`: the MD5 digest of the data, which is sixteen bytes. The
/// algorithm is only named.
#[verifier::external_body]
fn md5(data: &[u8]) -> (r: Vec<u8>)
    ensures
        r@ == md5_digest(data@),
        r@.len() == 16,
{
    <md5::Md5 as md5::Digest>::digest(data).to_vec()
}

/// Bytes as lower-case hexadecimal digits, two for each.
pub open spec fn hex(b: Seq<u8>) -> Seq<char> {
    Seq::new(
        2 * b.len(),
        |i: int|
            if i % 2 == 0 {
                hex_digit((b[i / 2] / 16) as nat)
            } else {
                hex_digit((b[i / 2] % 16) as nat)
            },
    )
}

fn hex_char(d: u8) -> (c: char)
    requires
        d < 16,
    ensures
        c == hex_digit(d as nat),
{
    if d < 10 {
        (48 + d) as char
    } else {
        (87 + d) as char
    }
}

/// Bytes as lower-case hexadecimal digits.
pub fn to_hex(b: &[u8]) -> (s: String)
    ensures
        s@ == hex(b@),
{
    let mut s = String::new();
    for i in 0..b.len()
        invariant
            s@ == hex(b@).subrange(0, 2 * i),
    {
        let ghost before = s@;
        s.push(hex_char(b[i] / 16));
        s.push(hex_char(b[i] % 16));
        assert(hex(b@).subrange(0, 2 * (i + 1)) == before.push(hex(b@)[2 * i]).push(
            hex(b@)[2 * i + 1],
        ));
    }
    assert(hex(b@).subrange(0, 2 * (b@.len() as int)) == hex(b@));
    s
}

/// The MD5 digest of the data in hexadecimal digits.
pub fn md5_hex(data: &[u8]) -> (s: String)
    ensures
        s@ == hex(md5_digest(data@)),
        s@.len() == 32,
{
    let d = md5(data);
    to_hex(&d)
}

} // verus!
