//! Digests and text encodings of bytes, computed by the crates that own them, and
//! letter case and quoting as the standard library has them.

use base64::Engine as _;
use sha1::Digest as _;
use vstd::prelude::*;
use vstd::utf8::is_ascii_chars;

verus! {

/// The MD5 digest of some bytes.
pub uninterp spec fn md5_digest(data: Seq<u8>) -> Seq<u8>;

/// `md5::compute`: the 16 bytes of the digest, which the data alone decides.
#[verifier::external_body]
pub(crate) fn md5(data: &[u8]) -> (r: Vec<u8>)
    ensures
        r@ == md5_digest(data@),
        r@.len() == 16,
{
    md5::compute(data).to_vec()
}

/// The SHA-1 digest of some bytes.
pub uninterp spec fn sha1_digest(data: Seq<u8>) -> Seq<u8>;

/// `sha1::Sha1::digest`: the 20 bytes of the digest, which the data alone decides.
#[verifier::external_body]
pub(crate) fn sha1(data: &[u8]) -> (r: Vec<u8>)
    ensures
        r@ == sha1_digest(data@),
        r@.len() == 20,
{
    sha1::Sha1::digest(data).to_vec()
}

/// Bytes in standard base64, with padding.
pub uninterp spec fn base64_text(data: Seq<u8>) -> Seq<char>;

/// `base64`'s `STANDARD` engine: the text of `data`, which `data` alone decides.
#[verifier::external_body]
pub(crate) fn base64(data: &[u8]) -> (r: String)
    ensures
        r@ == base64_text(data@),
{
    base64::prelude::BASE64_STANDARD.encode(data)
}

/// The lower-case hexadecimal digit of `d`.
pub open spec fn lower_hex(d: int) -> char {
    if d < 10 {
        (48 + d) as u8 as char
    } else {
        (87 + d) as u8 as char
    }
}

/// Bytes in lower-case hexadecimal, two digits each.
pub open spec fn hex_text(data: Seq<u8>) -> Seq<char> {
    Seq::new(
        2 * data.len(),
        |i: int|
            if i % 2 == 0 {
                lower_hex(data[i / 2] as int / 16)
            } else {
                lower_hex(data[i / 2] as int % 16)
            },
    )
}

/// `hex::encode`: two lower-case hexadecimal digits for each byte.
#[verifier::external_body]
pub(crate) fn hex(data: &[u8]) -> (r: String)
    ensures
        r@ == hex_text(data@),
{
    hex::encode(data)
}

/// The upper-case form of a text.
pub uninterp spec fn upper_cased(text: Seq<char>) -> Seq<char>;

/// The upper-case form of an ASCII character.
pub open spec fn ascii_upper(c: char) -> char {
    if 'a' <= c <= 'z' {
        (c as u8 - 32) as u8 as char
    } else {
        c
    }
}

/// `str::to_uppercase`: the upper-case form of `text`, which the text alone
/// decides. Of ASCII text it is the same text with `a` to `z` made capital.
#[verifier::external_body]
pub(crate) fn uppercase(text: &str) -> (r: String)
    ensures
        r@ == upper_cased(text@),
        is_ascii_chars(text@) ==> r@ == text@.map_values(|c: char| ascii_upper(c)),
{
    text.to_uppercase()
}

/// A text in double quotes, with what needs it escaped.
pub uninterp spec fn quoted(text: Seq<char>) -> Seq<char>;

/// The `Debug` form of `str`: the text in double quotes, with what needs it
/// escaped. The text alone decides.
#[verifier::external_body]
pub(crate) fn quote(text: &str) -> (r: String)
    ensures
        r@ == quoted(text@),
{
    format!("{text:?}")
}

/// The debugging form of an optional text.
pub open spec fn optional_quoted(text: Option<Seq<char>>) -> Seq<char> {
    match text {
        Some(s) => "Some("@ + quoted(s) + ")"@,
        None => "None"@,
    }
}

/// The debugging form of an optional text.
pub(crate) fn quote_optional(text: &Option<String>) -> (r: String)
    ensures
        r@ == optional_quoted(crate::json::opt_string(*text)),
{
    match text {
        Some(s) => {
            let mut out = "Some(".to_owned();
            out.append(quote(s.as_str()).as_str());
            out.append(")");
            out
        },
        None => "None".to_owned(),
    }
}

/// The debugging form of an optional number.
pub open spec fn optional_number(n: Option<i64>) -> Seq<char> {
    match n {
        Some(n) => "Some("@ + crate::decimal::dec_int(n as int) + ")"@,
        None => "None"@,
    }
}

/// The debugging form of an optional number.
pub(crate) fn show_optional(n: Option<i64>) -> (r: String)
    ensures
        r@ == optional_number(n),
{
    match n {
        Some(n) => {
            let mut out = "Some(".to_owned();
            out.append(crate::decimal::i64_text(n).as_str());
            out.append(")");
            out
        },
        None => "None".to_owned(),
    }
}

/// The hexadecimal form is made of lower-case digits, two for each byte.
pub proof fn hex_is_lower_case(data: Seq<u8>)
    ensures
        hex_text(data).len() == 2 * data.len(),
        forall|i: int|
            0 <= i < 2 * data.len() ==> ('0' <= #[trigger] hex_text(data)[i] <= '9' || 'a'
                <= hex_text(data)[i] <= 'f'),
{
    assert forall|i: int| 0 <= i < 2 * data.len() implies ('0' <= #[trigger] hex_text(data)[i]
        <= '9' || 'a' <= hex_text(data)[i] <= 'f') by {
        let b = data[i / 2] as int;
        assert(0 <= b / 16 < 16 && 0 <= b % 16 < 16);
    }
}

/// Bytes written in hex are two digits each, the high half first, so that the bytes can be
/// read back from the text.
pub proof fn hex_tells_every_byte(data: Seq<u8>, other: Seq<u8>)
    requires
        hex_text(data) == hex_text(other),
    ensures
        data == other,
{
    assert(hex_text(data).len() == 2 * data.len());
    assert(hex_text(other).len() == 2 * other.len());
    assert forall|i: int| 0 <= i < data.len() implies data[i] == other[i] by {
        let a = data[i] as int;
        let b = other[i] as int;
        assert(hex_text(data)[2 * i] == lower_hex(a / 16));
        assert(hex_text(other)[2 * i] == lower_hex(b / 16));
        assert(hex_text(data)[2 * i + 1] == lower_hex(a % 16));
        assert(hex_text(other)[2 * i + 1] == lower_hex(b % 16));
        assert(0 <= a / 16 < 16 && 0 <= b / 16 < 16);
        assert(0 <= a % 16 < 16 && 0 <= b % 16 < 16);
        assert(a == (a / 16) * 16 + a % 16);
        assert(b == (b / 16) * 16 + b % 16);
    }
    assert(data =~= other);
}

/// An optional value is shown as the value in `Some(..)`, or as `None`.
pub proof fn an_optional_value_shows_its_value(text: Seq<char>, n: i64)
    ensures
        optional_quoted(Some(text)) == "Some("@ + quoted(text) + ")"@,
        optional_quoted(None) == "None"@,
        optional_number(Some(n)) == "Some("@ + crate::decimal::dec_int(n as int) + ")"@,
        optional_number(None) == "None"@,
{
}

} // verus!
