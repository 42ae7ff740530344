//! Percent-encoding of query values through the `urlencoding` crate.

use vstd::prelude::*;
use vstd::utf8::{decode_utf8, encode_utf8, valid_utf8};

verus! {

/// Bytes that percent-encoding leaves as they are: ASCII alphanumerics and `-._~`.
pub open spec fn unreserved(b: u8) -> bool {
    ||| (48 <= b && b <= 57)
    ||| (65 <= b && b <= 90)
    ||| (97 <= b && b <= 122)
    ||| b == 45
    ||| b == 46
    ||| b == 95
    ||| b == 126
}

/// Upper-case hexadecimal digit for a value below sixteen.
pub open spec fn hex_upper(d: int) -> char {
    if d < 10 {
        (48 + d) as char
    } else {
        (55 + d) as char
    }
}

/// Percent-encoding of a byte sequence.
pub open spec fn pct_encode(b: Seq<u8>) -> Seq<char>
    decreases b.len(),
{
    if b.len() == 0 {
        seq![]
    } else {
        let x = b.last();
        pct_encode(b.drop_last()) + if unreserved(x) {
            seq![x as char]
        } else {
            seq!['%', hex_upper(x as int / 16), hex_upper(x as int % 16)]
        }
    }
}

/// Percent-encoding of the UTF-8 bytes of a string.
pub open spec fn url_encode(s: Seq<char>) -> Seq<char> {
    pct_encode(encode_utf8(s))
}

/// Value of an ASCII hexadecimal digit.
pub open spec fn hex_value(b: u8) -> Option<int> {
    if 48 <= b && b <= 57 {
        Some(b - 48)
    } else if 65 <= b && b <= 70 {
        Some(b - 55)
    } else if 97 <= b && b <= 102 {
        Some(b - 87)
    } else {
        None
    }
}

/// Percent-decoding of a byte sequence: each `%` with two hexadecimal digits
/// becomes one byte; every other byte, a lone `%` among them, stays as it is.
pub open spec fn pct_decode(b: Seq<u8>) -> Seq<u8>
    decreases b.len(),
{
    if b.len() == 0 {
        seq![]
    } else if b[0] == 37 && b.len() >= 3 && hex_value(b[1]) is Some && hex_value(b[2]) is Some {
        seq![(hex_value(b[1])->0 * 16 + hex_value(b[2])->0) as u8] + pct_decode(
            b.subrange(3, b.len() as int),
        )
    } else {
        seq![b[0]] + pct_decode(b.drop_first())
    }
}

/// Percent-decoding of a string: `None` when the decoded bytes are not UTF-8.
pub open spec fn url_decode(s: Seq<char>) -> Option<Seq<char>> {
    let d = pct_decode(encode_utf8(s));
    if valid_utf8(d) {
        Some(decode_utf8(d))
    } else {
        None
    }
}

/// Percent-encodes a string with `urlencoding::encode`.
///
/// Trusted: every UTF-8 byte except ASCII alphanumerics and `-._~` becomes `%XX`
/// with upper-case hex digits, as the crate documents and its source does.
#[verifier::external_body]
pub(crate) fn encode(s: &str) -> (r: String)
    ensures
        r@ == url_encode(s@),
{
    urlencoding::encode(s).into_owned()
}

/// Percent-decodes a string with `urlencoding::decode`.
///
/// Trusted: `%XX` with two hex digits becomes that byte, everything else is kept,
/// and the result is `None` when those bytes are not valid UTF-8.
#[verifier::external_body]
pub(crate) fn decode(s: &str) -> (r: Option<String>)
    ensures
        match r {
            Some(t) => url_decode(s@) == Some(t@),
            None => url_decode(s@) is None,
        },
{
    urlencoding::decode(s).ok().map(|c| c.into_owned())
}

} // verus!
