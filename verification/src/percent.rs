//! Percent-encoding of URL path segments, done by the `urlencoding` crate.

use vstd::prelude::*;
use vstd::utf8::{
    decode_utf8, encode_utf8, encode_utf8_decode_utf8, encode_utf8_valid_utf8, is_ascii_chars,
    is_ascii_chars_encode_utf8, valid_utf8,
};

verus! {

/// The bytes that stand for themselves: ASCII letters, digits and `-._~`.
pub open spec fn unreserved(b: u8) -> bool {
    ||| 48 <= b <= 57
    ||| 65 <= b <= 90
    ||| 97 <= b <= 122
    ||| b == 45
    ||| b == 46
    ||| b == 95
    ||| b == 126
}

/// The upper-case hexadecimal digit of `d`.
pub open spec fn upper_hex(d: int) -> char {
    if d < 10 {
        (48 + d) as u8 as char
    } else {
        (55 + d) as u8 as char
    }
}

/// One byte, percent-encoded.
pub open spec fn escaped_byte(b: u8) -> Seq<char> {
    if unreserved(b) {
        seq![b as char]
    } else {
        seq!['%', upper_hex(b as int / 16), upper_hex(b as int % 16)]
    }
}

/// Bytes, percent-encoded one by one.
pub open spec fn escaped_bytes(bytes: Seq<u8>) -> Seq<char>
    decreases bytes.len(),
{
    if bytes.len() == 0 {
        Seq::empty()
    } else {
        escaped_byte(bytes[0]) + escaped_bytes(bytes.skip(1))
    }
}

/// `text` percent-encoded: its UTF-8 bytes, escaped where they must be.
pub open spec fn escaped(text: Seq<char>) -> Seq<char> {
    escaped_bytes(encode_utf8(text))
}

/// The value of a hexadecimal digit, of either case.
pub open spec fn hex_value(b: u8) -> Option<int> {
    if 48 <= b <= 57 {
        Some(b - 48)
    } else if 65 <= b <= 70 {
        Some(b - 55)
    } else if 97 <= b <= 102 {
        Some(b - 87)
    } else {
        None
    }
}

/// Bytes with every `%` and its two hexadecimal digits replaced by the byte that
/// they spell. A `%` that no two digits follow stays as it is.
pub open spec fn unescaped_bytes(bytes: Seq<u8>) -> Seq<u8>
    decreases bytes.len(),
{
    if bytes.len() == 0 {
        Seq::empty()
    } else if bytes.len() >= 3 && bytes[0] == 37 && hex_value(bytes[1]) is Some && hex_value(
        bytes[2],
    ) is Some {
        seq![(hex_value(bytes[1])->0 * 16 + hex_value(bytes[2])->0) as u8] + unescaped_bytes(
            bytes.skip(3),
        )
    } else {
        seq![bytes[0]] + unescaped_bytes(bytes.skip(1))
    }
}

/// The text that percent-encoded `text` stands for, when its bytes are UTF-8.
pub open spec fn unescaped(text: Seq<char>) -> Option<Seq<char>> {
    let bytes = unescaped_bytes(encode_utf8(text));
    if valid_utf8(bytes) {
        Some(decode_utf8(bytes))
    } else {
        None
    }
}

/// `urlencoding::encode`: every byte of the UTF-8 form of `text` that is not
/// unreserved becomes `%` and two upper-case hexadecimal digits.
#[verifier::external_body]
pub(crate) fn encode(text: &str) -> (r: String)
    ensures
        r@ == escaped(text@),
{
    urlencoding::encode(text).into_owned()
}

/// `urlencoding::decode`: `%` and two hexadecimal digits become the byte they
/// spell, everything else is kept, and bytes that are not UTF-8 in the end are
/// an error, here `None`.
#[verifier::external_body]
pub(crate) fn decode(text: &str) -> (r: Option<String>)
    ensures
        r is Some <==> unescaped(text@) is Some,
        r matches Some(s) ==> unescaped(text@) == Some(s@),
{
    urlencoding::decode(text).ok().map(|s| s.into_owned())
}

proof fn escaped_byte_is_ascii(b: u8)
    ensures
        is_ascii_chars(escaped_byte(b)),
        escaped_byte(b).len() > 0,
{
    let h = b as int / 16;
    let l = b as int % 16;
    assert(0 <= h < 16 && 0 <= l < 16);
    assert((upper_hex(h) as u32) < 128);
    assert((upper_hex(l) as u32) < 128);
    if unreserved(b) {
        assert((b as char) as u32 == b as u32);
    }
}

proof fn escaped_bytes_are_ascii(bytes: Seq<u8>)
    ensures
        is_ascii_chars(escaped_bytes(bytes)),
    decreases bytes.len(),
{
    if bytes.len() > 0 {
        escaped_byte_is_ascii(bytes[0]);
        escaped_bytes_are_ascii(bytes.skip(1));
        let a = escaped_byte(bytes[0]);
        let b = escaped_bytes(bytes.skip(1));
        assert forall|i: int| 0 <= i < (a + b).len() implies '\0' <= #[trigger] (a + b)[i]
            <= '\u{7f}' by {
            if i < a.len() {
                assert((a + b)[i] == a[i]);
            } else {
                assert((a + b)[i] == b[i - a.len()]);
            }
        }
    }
}

/// The bytes of ASCII text.
spec fn ascii_bytes(chars: Seq<char>) -> Seq<u8> {
    chars.map_values(|c: char| c as u8)
}

proof fn unescaping_undoes_escaping(bytes: Seq<u8>)
    ensures
        unescaped_bytes(ascii_bytes(escaped_bytes(bytes))) == bytes,
    decreases bytes.len(),
{
    if bytes.len() == 0 {
        assert(ascii_bytes(escaped_bytes(bytes)) =~= Seq::<u8>::empty());
        assert(bytes =~= Seq::<u8>::empty());
    } else {
        let b = bytes[0];
        let head = escaped_byte(b);
        let tail = escaped_bytes(bytes.skip(1));
        let all = ascii_bytes(head + tail);
        unescaping_undoes_escaping(bytes.skip(1));
        if unreserved(b) {
            assert(all[0] == b);
            assert(all.skip(1) =~= ascii_bytes(tail));
            assert(unescaped_bytes(all) == seq![b] + bytes.skip(1));
        } else {
            let h = b as int / 16;
            let l = b as int % 16;
            assert(0 <= h < 16 && 0 <= l < 16);
            assert(all[0] == 37u8);
            assert(all[1] == upper_hex(h) as u8);
            assert(all[2] == upper_hex(l) as u8);
            assert(hex_value(all[1]) == Some(h));
            assert(hex_value(all[2]) == Some(l));
            assert(all.skip(3) =~= ascii_bytes(tail));
            assert(h * 16 + l == b);
        }
        assert(unescaped_bytes(all) =~= bytes);
    }
}

/// Decoding gives back exactly the text that was encoded.
pub proof fn decoding_undoes_encoding(text: Seq<char>)
    ensures
        unescaped(escaped(text)) == Some(text),
{
    let bytes = encode_utf8(text);
    let e = escaped_bytes(bytes);
    escaped_bytes_are_ascii(bytes);
    is_ascii_chars_encode_utf8(e);
    assert(encode_utf8(e) =~= ascii_bytes(e));
    unescaping_undoes_escaping(bytes);
    encode_utf8_valid_utf8(text);
    encode_utf8_decode_utf8(text);
}

/// Whether `c` stands for itself in an encoded text, or starts or continues an
/// escape.
pub open spec fn url_safe(c: char) -> bool {
    c == '%' || (c as u32 <= 126 && unreserved(c as u8))
}

proof fn escaped_bytes_are_safe(bytes: Seq<u8>)
    ensures
        forall|i: int| 0 <= i < escaped_bytes(bytes).len() ==> url_safe(#[trigger] escaped_bytes(bytes)[i]),
    decreases bytes.len(),
{
    if bytes.len() > 0 {
        escaped_bytes_are_safe(bytes.skip(1));
        let b = bytes[0];
        let h = b as int / 16;
        let l = b as int % 16;
        assert(0 <= h < 16 && 0 <= l < 16);
        assert(url_safe(upper_hex(h)) && url_safe(upper_hex(l)));
        let x = escaped_byte(b);
        let y = escaped_bytes(bytes.skip(1));
        assert forall|i: int| 0 <= i < (x + y).len() implies url_safe(#[trigger] (x + y)[i]) by {
            if i >= x.len() {
                assert((x + y)[i] == y[i - x.len()]);
            }
        }
    }
}

/// Encoded text holds only unreserved characters and `%`; in particular it is a
/// single path segment.
pub proof fn encoded_text_is_one_segment(text: Seq<char>)
    ensures
        forall|i: int| 0 <= i < escaped(text).len() ==> url_safe(#[trigger] escaped(text)[i]),
        !escaped(text).contains('/'),
        !escaped(text).contains('?'),
        !escaped(text).contains('#'),
{
    escaped_bytes_are_safe(encode_utf8(text));
}

} // verus!
