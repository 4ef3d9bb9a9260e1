//! The weapi request encryption scheme.
//!
//! Every request body of NetEase's web player is a form with two fields.
//! `params` is the JSON payload run through AES-128-CBC twice: under a key that is
//! fixed, and under a random secret of 16 characters, each time in base64.
//! `encSecKey` is that secret, read backwards as a big-endian number, under
//! textbook RSA, in 256 hexadecimal digits. All the constants are fixed by the
//! server.

use crate::digest::{base64, base64_text, hex, hex_is_lower_case, hex_text, lower_hex};
use crate::random::below;
use aes::cipher::{BlockEncryptMut as _, KeyIvInit as _};
use vstd::arithmetic::power::{
    lemma_pow_adds, lemma_pow_increases, lemma_pow0, lemma_pow1, pow,
};
use vstd::prelude::*;
use vstd::utf8::{encode_utf8, is_ascii_chars, is_ascii_chars_encode_utf8};

verus! {

/// Key of the first AES pass.
pub const PRESET_KEY: &'static str = "0CoJUm6Qyw8W8jud";

/// The one initialisation vector that both AES passes use.
pub const IV: &'static str = "0102030405060708";

/// RSA modulus, 1024 bits, in hexadecimal.
pub const RSA_MODULUS_HEX: &'static str = "00e0b509f6259df8642dbc35662901477df22677ec152b5ff68ace615bb7b725152b3ab17a876aea8a5aa76d2e417629ec4ee341f56135fccf695280104e0312ecbda92557c93870114af6c9d05c4f7f0c3685b7a46bee255932575cce10b424d813cfe4875d3e82047b97ddef52741d546b8e289dc6935b3ece0462db0a22b8e7";

/// RSA public exponent, in hexadecimal.
pub const RSA_EXPONENT_HEX: &'static str = "010001";

/// Length of the per-request secret.
pub const SECRET_LEN: usize = 16;

/// The number that bytes denote, the most significant first.
pub open spec fn be_value(bytes: Seq<u8>) -> nat
    decreases bytes.len(),
{
    if bytes.len() == 0 {
        0
    } else {
        be_value(bytes.drop_last()) * 256 + bytes.last() as nat
    }
}

/// The value of a lower-case hexadecimal digit.
pub open spec fn digit_value(c: char) -> nat {
    if '0' <= c <= '9' {
        (c as u32 - 48) as nat
    } else if 'a' <= c <= 'f' {
        (c as u32 - 87) as nat
    } else {
        0
    }
}

/// Whether `c` is a lower-case hexadecimal digit.
pub open spec fn is_hex_digit(c: char) -> bool {
    '0' <= c <= '9' || 'a' <= c <= 'f'
}

/// Whether `text` is made of lower-case hexadecimal digits.
pub open spec fn is_hex(text: Seq<char>) -> bool {
    forall|i: int| 0 <= i < text.len() ==> is_hex_digit(#[trigger] text[i])
}

/// The number that hexadecimal digits denote.
pub open spec fn hex_number(text: Seq<char>) -> nat
    decreases text.len(),
{
    if text.len() == 0 {
        0
    } else {
        hex_number(text.drop_last()) * 16 + digit_value(text.last())
    }
}

/// Bytes under AES-128 in CBC mode with PKCS#7 padding.
pub uninterp spec fn aes_128_cbc(data: Seq<u8>, key: Seq<u8>, iv: Seq<u8>) -> Seq<u8>;

/// `cbc::Encryptor<aes::Aes128>` with `Pkcs7` padding: the ciphertext of `data`,
/// which the three arguments alone decide. The padding fills the last block up,
/// and adds a whole one where it is full.
#[verifier::external_body]
fn aes_encrypt(data: &[u8], key: &[u8], iv: &[u8]) -> (r: Vec<u8>)
    requires
        key@.len() == 16,
        iv@.len() == 16,
    ensures
        r@ == aes_128_cbc(data@, key@, iv@),
        r@.len() == (data@.len() / 16 + 1) * 16,
{
    let cipher = cbc::Encryptor::<aes::Aes128>::new_from_slices(key, iv);
    cipher.expect("key and iv are 16 bytes").encrypt_padded_vec_mut::<aes::cipher::block_padding::Pkcs7>(data)
}

/// `num_bigint::BigUint`'s `from_bytes_be`, `parse_bytes`, `modpow` and
/// `to_bytes_be`: the number `base` to the power `exponent` modulo `modulus`, the
/// latter two in hexadecimal. It comes back without leading zero bytes, but for a
/// single one where it is zero.
#[verifier::external_body]
fn mod_pow(base: &[u8], exponent: &str, modulus: &str) -> (r: Vec<u8>)
    requires
        exponent@.len() > 0,
        is_hex(exponent@),
        modulus@.len() > 0,
        is_hex(modulus@),
        hex_number(modulus@) > 0,
    ensures
        be_value(r@) as int == pow(be_value(base@) as int, hex_number(exponent@)) % (hex_number(
            modulus@,
        ) as int),
        r@.len() > 1 ==> r@[0] != 0,
{
    let e = num_bigint::BigUint::parse_bytes(exponent.as_bytes(), 16).expect("hexadecimal");
    let n = num_bigint::BigUint::parse_bytes(modulus.as_bytes(), 16).expect("hexadecimal");
    num_bigint::BigUint::from_bytes_be(base).modpow(&e, &n).to_bytes_be()
}

proof fn be_value_bound(bytes: Seq<u8>)
    ensures
        be_value(bytes) < pow(256, bytes.len()),
    decreases bytes.len(),
{
    if bytes.len() == 0 {
        lemma_pow0(256);
    } else {
        let n = bytes.drop_last().len();
        be_value_bound(bytes.drop_last());
        lemma_pow_adds(256, n, 1);
        lemma_pow1(256);
        let v = be_value(bytes.drop_last()) as int;
        let p = pow(256, n);
        assert(pow(256, bytes.len()) == p * 256);
        assert(v * 256 + 255 < p * 256) by (nonlinear_arith)
            requires
                v < p,
        ;
    }
}

/// A number whose first byte is not zero is at least as big as its length says.
proof fn be_value_floor(bytes: Seq<u8>)
    requires
        bytes.len() > 0,
        bytes[0] != 0,
    ensures
        be_value(bytes) >= pow(256, (bytes.len() - 1) as nat),
    decreases bytes.len(),
{
    if bytes.len() == 1 {
        lemma_pow0(256);
        reveal_with_fuel(be_value, 2);
        assert(bytes.drop_last() =~= Seq::<u8>::empty());
    } else {
        let n = (bytes.len() - 2) as nat;
        be_value_floor(bytes.drop_last());
        lemma_pow_adds(256, n, 1);
        lemma_pow1(256);
        let v = be_value(bytes.drop_last()) as int;
        let p = pow(256, n);
        assert(pow(256, (bytes.len() - 1) as nat) == p * 256);
        assert(v * 256 >= p * 256) by (nonlinear_arith)
            requires
                v >= p,
        ;
    }
}

proof fn be_value_with_zeros(zeros: Seq<u8>, bytes: Seq<u8>)
    requires
        forall|i: int| 0 <= i < zeros.len() ==> #[trigger] zeros[i] == 0,
    ensures
        be_value(zeros + bytes) == be_value(bytes),
    decreases zeros.len() + bytes.len(),
{
    if bytes.len() > 0 {
        assert((zeros + bytes).drop_last() =~= zeros + bytes.drop_last());
        be_value_with_zeros(zeros, bytes.drop_last());
    } else if zeros.len() > 0 {
        assert(zeros + bytes =~= zeros);
        let rest = zeros.drop_last();
        assert(rest + bytes =~= rest);
        be_value_with_zeros(rest, bytes);
        assert(zeros.last() == 0);
    } else {
        assert(zeros + bytes =~= bytes);
    }
}

proof fn hex_number_bound(text: Seq<char>)
    ensures
        hex_number(text) < pow(16, text.len()),
    decreases text.len(),
{
    if text.len() == 0 {
        lemma_pow0(16);
    } else {
        let n = text.drop_last().len();
        hex_number_bound(text.drop_last());
        lemma_pow_adds(16, n, 1);
        lemma_pow1(16);
        let v = hex_number(text.drop_last()) as int;
        let p = pow(16, n);
        assert(pow(16, text.len()) == p * 16);
        assert(v * 16 + 15 < p * 16) by (nonlinear_arith)
            requires
                v < p,
        ;
        assert(digit_value(text.last()) <= 15);
    }
}

/// Leading zeros do not count.
proof fn hex_number_skips_zero(text: Seq<char>)
    requires
        text.len() > 0,
        text[0] == '0',
    ensures
        hex_number(text) == hex_number(text.skip(1)),
    decreases text.len(),
{
    if text.len() == 1 {
        reveal_with_fuel(hex_number, 2);
        assert(text.drop_last() =~= Seq::<char>::empty());
        assert(text.skip(1) =~= Seq::<char>::empty());
    } else {
        assert(text.drop_last().skip(1) =~= text.skip(1).drop_last());
        hex_number_skips_zero(text.drop_last());
    }
}

/// A number with a digit that is not zero is not zero.
proof fn hex_number_positive(text: Seq<char>, k: int)
    requires
        0 <= k < text.len(),
        digit_value(text[k]) > 0,
    ensures
        hex_number(text) > 0,
    decreases text.len(),
{
    if k < text.len() - 1 {
        assert(text.drop_last()[k] == text[k]);
        hex_number_positive(text.drop_last(), k);
    }
}

proof fn pow_16_256(n: nat)
    ensures
        pow(256, n) == pow(16, 2 * n),
    decreases n,
{
    if n == 0 {
        lemma_pow0(256);
        lemma_pow0(16);
    } else {
        let m = (n - 1) as nat;
        pow_16_256(m);
        lemma_pow_adds(256, m, 1);
        lemma_pow1(256);
        lemma_pow_adds(16, 2 * m, 2);
        lemma_pow_adds(16, 1, 1);
        lemma_pow1(16);
        assert(2 * m + 2 == 2 * n);
    }
}

/// Hexadecimal text denotes the number that its bytes denote.
proof fn hex_text_denotes(bytes: Seq<u8>)
    ensures
        hex_number(hex_text(bytes)) == be_value(bytes),
        is_hex(hex_text(bytes)),
    decreases bytes.len(),
{
    hex_is_lower_case(bytes);
    if bytes.len() == 0 {
        assert(hex_text(bytes) =~= Seq::<char>::empty());
    } else {
        let rest = bytes.drop_last();
        let b = bytes.last() as int;
        hex_text_denotes(rest);
        let text = hex_text(bytes);
        let n = text.len() as int;
        let one = text.drop_last();
        let two = one.drop_last();
        assert(two =~= hex_text(rest));
        assert(0 <= b / 16 < 16 && 0 <= b % 16 < 16);
        assert((n - 1) / 2 == bytes.len() - 1 && (n - 1) % 2 == 1);
        assert((n - 2) / 2 == bytes.len() - 1 && (n - 2) % 2 == 0);
        assert(text.last() == lower_hex(b % 16));
        assert(one.last() == text[n - 2]);
        assert(one.last() == lower_hex(b / 16));
        assert(digit_value(lower_hex(b % 16)) == b % 16);
        assert(digit_value(lower_hex(b / 16)) == b / 16);
        assert(hex_number(one) == hex_number(two) * 16 + b / 16);
        assert(hex_number(text) == hex_number(one) * 16 + b % 16);
        assert(b == 16 * (b / 16) + b % 16);
    }
}

/// Two texts of the same length that denote the same number are the same.
proof fn hex_is_injective(a: Seq<char>, b: Seq<char>)
    requires
        is_hex(a),
        is_hex(b),
        a.len() == b.len(),
        hex_number(a) == hex_number(b),
    ensures
        a == b,
    decreases a.len(),
{
    if a.len() == 0 {
        assert(a =~= b);
    } else {
        let x = hex_number(a.drop_last()) as int;
        let y = hex_number(b.drop_last()) as int;
        let c = digit_value(a.last()) as int;
        let d = digit_value(b.last()) as int;
        assert(is_hex_digit(a[a.len() - 1]) && is_hex_digit(b[b.len() - 1]));
        assert(x == y && c == d) by {
            assert(x * 16 + c == y * 16 + d);
        }
        hex_is_injective(a.drop_last(), b.drop_last());
        assert(a =~= a.drop_last().push(a.last()));
        assert(b =~= b.drop_last().push(b.last()));
    }
}

/// The secret under textbook RSA: read backwards, to the power of the exponent,
/// modulo the modulus.
pub open spec fn rsa_number(secret: Seq<u8>) -> int {
    pow(be_value(secret.reverse()) as int, hex_number(RSA_EXPONENT_HEX@)) % (hex_number(
        RSA_MODULUS_HEX@,
    ) as int)
}

/// Whether `key` is what the server takes for `secret`: 256 lower-case hexadecimal
/// digits, leading zeros included.
pub open spec fn is_enc_sec_key(key: Seq<char>, secret: Seq<u8>) -> bool {
    key.len() == 256 && is_hex(key) && hex_number(key) == rsa_number(secret)
}

proof fn the_constants_are_sound()
    ensures
        is_hex(RSA_EXPONENT_HEX@),
        RSA_EXPONENT_HEX@.len() > 0,
        is_hex(RSA_MODULUS_HEX@),
        RSA_MODULUS_HEX@.len() > 0,
        0 < hex_number(RSA_MODULUS_HEX@) < pow(256, 128),
        encode_utf8(PRESET_KEY@).len() == 16,
        encode_utf8(IV@).len() == 16,
{
    reveal_strlit("010001");
    reveal_strlit("00e0b509f6259df8642dbc35662901477df22677ec152b5ff68ace615bb7b725152b3ab17a876aea8a5aa76d2e417629ec4ee341f56135fccf695280104e0312ecbda92557c93870114af6c9d05c4f7f0c3685b7a46bee255932575cce10b424d813cfe4875d3e82047b97ddef52741d546b8e289dc6935b3ece0462db0a22b8e7");
    reveal_strlit("0CoJUm6Qyw8W8jud");
    reveal_strlit("0102030405060708");
    let n = RSA_MODULUS_HEX@;
    assert(n.len() == 258);
    hex_number_positive(n, 2);
    hex_number_skips_zero(n);
    let m = n.skip(1);
    assert(m[0] == n[1]);
    hex_number_skips_zero(m);
    hex_number_bound(m.skip(1));
    pow_16_256(128);
    assert(is_ascii_chars(PRESET_KEY@));
    is_ascii_chars_encode_utf8(PRESET_KEY@);
    assert(is_ascii_chars(IV@));
    is_ascii_chars_encode_utf8(IV@);
}

/// Textbook RSA over the reversed secret, as 256 lower-case hexadecimal digits.
pub fn rsa_encrypt(secret: &[u8]) -> (r: String)
    ensures
        is_enc_sec_key(r@, secret@),
{
    let n: usize = secret.len();
    let mut reversed: Vec<u8> = Vec::new();
    let mut i: usize = n;
    while i > 0
        invariant
            n == secret@.len(),
            i <= n,
            reversed@.len() == n - i,
            forall|k: int| 0 <= k < n - i ==> #[trigger] reversed@[k] == secret@[n - 1 - k],
        decreases i,
    {
        i -= 1;
        reversed.push(secret[i]);
    }
    assert(reversed@ =~= secret@.reverse());
    proof {
        the_constants_are_sound();
    }
    let bytes = mod_pow(reversed.as_slice(), RSA_EXPONENT_HEX, RSA_MODULUS_HEX);
    proof {
        let m = hex_number(RSA_MODULUS_HEX@) as int;
        let x = pow(be_value(secret@.reverse()) as int, hex_number(RSA_EXPONENT_HEX@));
        assert(0 <= x % m < m) by (nonlinear_arith)
            requires
                m > 0,
        ;
        if bytes@.len() > 128 {
            be_value_floor(bytes@);
            lemma_pow_increases(256, 128, (bytes@.len() - 1) as nat);
        }
    }
    let mut out: Vec<u8> = Vec::new();
    let pad: usize = 128 - bytes.len();
    while out.len() < pad
        invariant
            out@.len() <= pad,
            forall|k: int| 0 <= k < out@.len() ==> #[trigger] out@[k] == 0,
        decreases pad - out@.len(),
    {
        out.push(0);
    }
    let ghost zeros = out@;
    let mut j: usize = 0;
    assert(bytes@.take(0) =~= Seq::<u8>::empty());
    assert(out@ =~= zeros + bytes@.take(0));
    while j < bytes.len()
        invariant
            j <= bytes@.len(),
            out@ == zeros + bytes@.take(j as int),
        decreases bytes@.len() - j,
    {
        out.push(bytes[j]);
        j += 1;
        assert(out@ =~= zeros + bytes@.take(j as int));
    }
    proof {
        assert(bytes@.take(j as int) =~= bytes@);
        be_value_with_zeros(zeros, bytes@);
        hex_text_denotes(out@);
        hex_is_lower_case(out@);
    }
    hex(out.as_slice())
}

/// One AES pass under `key`, in base64.
pub open spec fn aes_base64(data: Seq<u8>, key: Seq<u8>) -> Seq<char> {
    base64_text(aes_128_cbc(data, key, encode_utf8(IV@)))
}

/// One AES pass with the fixed [`IV`], in base64.
pub fn aes_cbc_base64(data: &[u8], key: &[u8]) -> (r: String)
    requires
        key@.len() == 16,
    ensures
        r@ == aes_base64(data@, key@),
{
    proof {
        the_constants_are_sound();
    }
    base64(aes_encrypt(data, key, IV.as_bytes()).as_slice())
}

/// An encrypted weapi request: the two form fields to send.
#[derive(Debug, Clone, PartialEq, Eq)]
pub struct WeapiRequest {
    /// Doubly AES-encrypted payload, base64.
    pub params: String,
    /// The per-request secret under textbook RSA, in hexadecimal.
    pub enc_sec_key: String,
}

/// The payload under both AES passes.
pub open spec fn params_of(payload: Seq<char>, secret: Seq<u8>) -> Seq<char> {
    aes_base64(
        encode_utf8(aes_base64(encode_utf8(payload), encode_utf8(PRESET_KEY@))),
        secret,
    )
}

/// Whether `b` is in the alphabet of the secrets, which is base62.
pub open spec fn base62(b: u8) -> bool {
    97 <= b <= 122 || 65 <= b <= 90 || 48 <= b <= 57
}

/// A fresh secret of 16 base62 characters.
pub fn random_secret() -> (r: Vec<u8>)
    ensures
        r@.len() == SECRET_LEN,
        forall|i: int| 0 <= i < r@.len() ==> base62(#[trigger] r@[i]),
{
    let mut out: Vec<u8> = Vec::new();
    while out.len() < SECRET_LEN
        invariant
            out@.len() <= SECRET_LEN,
            forall|i: int| 0 <= i < out@.len() ==> base62(#[trigger] out@[i]),
        decreases SECRET_LEN - out@.len(),
    {
        let k: usize = below(62);
        let b: u8 = if k < 26 {
            97 + k as u8
        } else if k < 52 {
            65 + (k - 26) as u8
        } else {
            48 + (k - 52) as u8
        };
        out.push(b);
    }
    out
}

/// Encrypt `payload` under a secret of the caller's.
pub fn encrypt_with_secret(payload: &str, secret: &[u8]) -> (r: WeapiRequest)
    requires
        secret@.len() == SECRET_LEN,
    ensures
        r.params@ == params_of(payload@, secret@),
        is_enc_sec_key(r.enc_sec_key@, secret@),
{
    proof {
        the_constants_are_sound();
    }
    let first = aes_cbc_base64(payload.as_bytes(), PRESET_KEY.as_bytes());
    WeapiRequest {
        params: aes_cbc_base64(first.as_str().as_bytes(), secret),
        enc_sec_key: rsa_encrypt(secret),
    }
}

/// Encrypt `payload`, a JSON document, under a fresh random secret.
pub fn encrypt(payload: &str) -> (r: WeapiRequest)
    ensures
        exists|secret: Seq<u8>|
            {
                &&& secret.len() == SECRET_LEN
                &&& forall|i: int| 0 <= i < secret.len() ==> base62(#[trigger] secret[i])
                &&& r.params@ == #[trigger] params_of(payload@, secret)
                &&& is_enc_sec_key(r.enc_sec_key@, secret)
            },
{
    let secret = random_secret();
    let r = encrypt_with_secret(payload, secret.as_slice());
    assert(r.params@ == params_of(payload@, secret@));
    r
}

/// The key depends on the secret alone: whatever the payloads are, one secret
/// gives one key.
pub proof fn one_secret_gives_one_key(a: Seq<char>, b: Seq<char>, secret: Seq<u8>)
    requires
        is_enc_sec_key(a, secret),
        is_enc_sec_key(b, secret),
    ensures
        a == b,
{
    hex_is_injective(a, b);
}

/// Bytes and hex text denote numbers by place: one more byte counts once and makes what
/// stands before it 256 times as much, one more digit 16 times; and the hex text of bytes
/// denotes what the bytes do.
pub proof fn numbers_are_denoted_by_place(bytes: Seq<u8>, b: u8, text: Seq<char>, c: char)
    ensures
        be_value(Seq::empty()) == 0,
        be_value(bytes.push(b)) == be_value(bytes) * 256 + b,
        hex_number(Seq::empty()) == 0,
        hex_number(text.push(c)) == hex_number(text) * 16 + digit_value(c),
        hex_number(hex_text(bytes)) == be_value(bytes),
        is_hex(hex_text(bytes)),
{
    assert(bytes.push(b).drop_last() =~= bytes);
    assert(text.push(c).drop_last() =~= text);
    hex_text_denotes(bytes);
}

/// The number that a secret is encrypted as is the secret read back to front, raised to the
/// server's exponent, 65537, and reduced by its modulus.
pub proof fn a_secret_is_encrypted_back_to_front(secret: Seq<u8>, key: Seq<char>)
    requires
        is_enc_sec_key(key, secret),
    ensures
        key.len() == 256,
        forall|i: int|
            0 <= i < key.len() ==> ('0' <= #[trigger] key[i] <= '9' || 'a' <= key[i] <= 'f'),
        hex_number(key) as int == pow(be_value(secret.reverse()) as int, 65537) % (hex_number(
            RSA_MODULUS_HEX@,
        ) as int),
{
    reveal_strlit("010001");
    let e = RSA_EXPONENT_HEX@;
    reveal_with_fuel(hex_number, 7);
    assert(e.len() == 6);
    assert(hex_number(e) == 65537) by {
        let a = e.drop_last();
        let b = a.drop_last();
        let c = b.drop_last();
        let d = c.drop_last();
        let f = d.drop_last();
        assert(e.last() == '1' && a.last() == '0' && b.last() == '0' && c.last() == '0');
        assert(d.last() == '1' && f.last() == '0');
        assert(f.drop_last().len() == 0);
        assert(hex_number(f) == 0);
        assert(hex_number(d) == 1);
        assert(hex_number(c) == 16);
        assert(hex_number(b) == 256);
        assert(hex_number(a) == 4096);
    }
    assert forall|i: int| 0 <= i < key.len() implies ('0' <= #[trigger] key[i] <= '9' || 'a'
        <= key[i] <= 'f') by {
        assert(is_hex_digit(key[i]));
    }
}

/// A payload is encrypted twice, first under the preset key and then under the secret, each
/// time with the preset vector and as base64.
pub proof fn a_payload_is_encrypted_twice(payload: Seq<char>, secret: Seq<u8>)
    ensures
        params_of(payload, secret) == base64_text(
            aes_128_cbc(
                encode_utf8(
                    base64_text(
                        aes_128_cbc(
                            encode_utf8(payload),
                            encode_utf8("0CoJUm6Qyw8W8jud"@),
                            encode_utf8("0102030405060708"@),
                        ),
                    ),
                ),
                secret,
                encode_utf8("0102030405060708"@),
            ),
        ),
{
}

/// A secret is made of the letters and digits of ASCII, any of them.
pub proof fn a_secret_is_letters_and_digits(b: u8)
    ensures
        base62(b) <==> {
            let c = b as char;
            ||| 'a' <= c <= 'z'
            ||| 'A' <= c <= 'Z'
            ||| '0' <= c <= '9'
        },
{
}

} // verus!
