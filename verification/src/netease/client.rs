//! What every endpoint goes through: the origin, the encrypted body, and the
//! envelope of a reply.

use crate::digest::base64_text;
use crate::json::{json_parse, json_text, Json, JsonView};
use crate::netease::crypto::{
    aes_128_cbc, base62, encrypt, is_enc_sec_key, params_of, WeapiRequest, IV, PRESET_KEY,
    SECRET_LEN,
};
use crate::netease::error::{NeteaseErr, NeteaseErrView};
use crate::text::{
    trim_end_matches, trim_end_of, trim_end_of_ends, trim_start_matches, trim_start_of,
};
use vstd::prelude::*;
use vstd::utf8::encode_utf8;

verus! {

/// Default origin.
pub const BASE_URL: &'static str = "https://music.163.com";

/// The address of the weapi endpoint `path`.
pub open spec fn weapi_address(base: Seq<char>, path: Seq<char>) -> Seq<char> {
    base + "/weapi/"@ + trim_start_of(path, '/')
}

/// A request to a weapi endpoint: where it goes and the form it carries.
#[derive(Debug, Clone, PartialEq, Eq)]
pub struct WeapiPost {
    pub url: String,
    pub form: WeapiRequest,
}

/// Whether `form` carries `payload` under some secret.
pub open spec fn carries_payload(form: WeapiRequest, payload: JsonView) -> bool {
    exists|secret: Seq<u8>|
        {
            &&& secret.len() == SECRET_LEN
            &&& forall|i: int| 0 <= i < secret.len() ==> base62(#[trigger] secret[i])
            &&& form.params@ == #[trigger] params_of(json_text(payload), secret)
            &&& is_enc_sec_key(form.enc_sec_key@, secret)
        }
}

/// The origin that requests are resolved against.
#[derive(Debug, Clone, PartialEq, Eq)]
pub struct Client {
    base_url: String,
}

impl Client {
    /// The origin, without a trailing slash.
    pub closed spec fn origin(&self) -> Seq<char> {
        self.base_url@
    }

    /// The real NetEase origin.
    pub fn new() -> (r: Self)
        ensures
            r.origin() == BASE_URL@,
    {
        proof {
            reveal_strlit("https://music.163.com");
            assert(trim_end_of(BASE_URL@, '/') == BASE_URL@);
        }
        Self::with_base_url(BASE_URL)
    }

    /// An arbitrary origin. Trailing slashes are ignored.
    pub fn with_base_url(base_url: &str) -> (r: Self)
        ensures
            r.origin() == trim_end_of(base_url@, '/'),
            r.origin().len() > 0 ==> r.origin().last() != '/',
    {
        proof {
            trim_end_of_ends(base_url@, '/');
        }
        Self { base_url: trim_end_matches(base_url, '/').to_owned() }
    }

    /// The origin, without a trailing slash.
    pub fn base_url(&self) -> (r: &str)
        ensures
            r@ == self.origin(),
    {
        self.base_url.as_str()
    }

    /// The encrypted request that sends `payload` to `path`, which is given without
    /// the `/weapi/` prefix.
    pub fn post_weapi(&self, path: &str, payload: &Json) -> (r: WeapiPost)
        ensures
            r.url@ == weapi_address(self.origin(), path@),
            carries_payload(r.form, payload@),
    {
        let mut url = self.base_url.clone();
        url.append("/weapi/");
        url.append(trim_start_matches(path, '/'));
        let body = payload.render();
        WeapiPost { url, form: encrypt(body.as_str()) }
    }
}

/// The document that the body of a reply is. NetEase answers a malformed request
/// with a page of HTML, which is none.
pub fn read_reply(text: &str) -> (r: Result<Json, NeteaseErr>)
    ensures
        match json_parse(text@) {
            Ok(value) => r matches Ok(doc) && doc@ == value,
            Err(e) => r matches Err(err) && err@ == NeteaseErrView::Decode(e),
        },
{
    match Json::parse(text) {
        Ok(doc) => Ok(doc),
        Err(e) => Err(NeteaseErr::Decode(e)),
    }
}

/// The message of an error envelope.
pub open spec fn envelope_message(value: JsonView) -> Option<Seq<char>> {
    match value.get("message"@) {
        Some(m) => m.text(),
        None => value.text_of("msg"@),
    }
}

/// The code of an envelope.
pub open spec fn envelope_code(value: JsonView) -> Option<int> {
    match value.get("code"@) {
        Some(code) => code.whole(),
        None => None,
    }
}

/// The code of an envelope.
pub(crate) fn code_of(value: &Json) -> (r: Option<i64>)
    ensures
        r is Some <==> envelope_code(value@) is Some,
        r matches Some(code) ==> envelope_code(value@) == Some(code as int),
{
    match value.get("code") {
        Some(code) => code.as_i64(),
        None => None,
    }
}

/// The error that an envelope with this code is.
pub(crate) fn api_error(code: i64, value: &Json) -> (r: NeteaseErr)
    ensures
        r@ == (NeteaseErrView::Api { code: code as int, message: envelope_message(value@) }),
{
    let text = match value.get("message") {
        Some(m) => m.as_str(),
        None => value.text_of("msg"),
    };
    NeteaseErr::Api {
        code,
        message: match text {
            Some(m) => Some(m.to_owned()),
            None => None,
        },
    }
}

/// Fail unless the reply carries code 200. A reply without a code is accepted.
pub fn ensure_ok(value: &Json) -> (r: Result<(), NeteaseErr>)
    ensures
        match r {
            Ok(_) => envelope_code(value@) is None || envelope_code(value@) == Some(200int),
            Err(e) => envelope_code(value@) matches Some(code) && code != 200 && e@
                == (NeteaseErrView::Api { code, message: envelope_message(value@) }),
        },
{
    match code_of(value) {
        None => Ok(()),
        Some(code) => if code == 200 {
            Ok(())
        } else {
            Err(api_error(code, value))
        },
    }
}

/// A path is asked for under the server's own address and `/weapi/`, with or without a
/// slash before it.
pub proof fn a_path_is_asked_for_under_the_server(base: Seq<char>, path: Seq<char>)
    ensures
        (base + "/weapi/"@).is_prefix_of(weapi_address(base, path)),
        path.len() == 0 || path[0] != '/' ==> weapi_address(base, path) == base + "/weapi/"@ + path,
        weapi_address(base, seq!['/'] + path) == weapi_address(base, path),
{
    let start = base + "/weapi/"@;
    let url = weapi_address(base, path);
    assert(start =~= url.take(start.len() as int));
    assert((seq!['/'] + path).skip(1) =~= path);
}

/// A form that carries a payload carries its text, encrypted under the preset key and then
/// under a secret of sixteen letters and digits, and that secret in turn, encrypted for the
/// server.
pub proof fn a_form_carries_the_payload_and_its_secret(form: WeapiRequest, payload: JsonView)
    requires
        carries_payload(form, payload),
    ensures
        exists|secret: Seq<u8>|
            {
                &&& secret.len() == 16
                &&& forall|i: int| 0 <= i < secret.len() ==> base62(#[trigger] secret[i])
                &&& #[trigger] is_enc_sec_key(form.enc_sec_key@, secret)
                &&& form.params@ == base64_text(
                    aes_128_cbc(
                        encode_utf8(
                            base64_text(
                                aes_128_cbc(
                                    encode_utf8(json_text(payload)),
                                    encode_utf8(PRESET_KEY@),
                                    encode_utf8(IV@),
                                ),
                            ),
                        ),
                        secret,
                        encode_utf8(IV@),
                    ),
                )
            },
{
    let secret = choose|secret: Seq<u8>|
        {
            &&& secret.len() == SECRET_LEN
            &&& forall|i: int| 0 <= i < secret.len() ==> base62(#[trigger] secret[i])
            &&& form.params@ == #[trigger] params_of(json_text(payload), secret)
            &&& is_enc_sec_key(form.enc_sec_key@, secret)
        };
    assert(is_enc_sec_key(form.enc_sec_key@, secret));
}

/// A reply's message is the text under `message`, or, where it has no such member, the text
/// under `msg`. Its code is the whole number under `code`.
pub proof fn a_reply_is_read_by_its_members(value: JsonView)
    ensures
        match value.get("message"@) {
            Some(JsonView::Str(text)) => envelope_message(value) == Some(text),
            Some(_) => envelope_message(value) is None,
            None => match value.get("msg"@) {
                Some(JsonView::Str(text)) => envelope_message(value) == Some(text),
                _ => envelope_message(value) is None,
            },
        },
        match value.get("code"@) {
            Some(JsonView::Int(n)) => envelope_code(value) == if i64::MIN <= n <= i64::MAX {
                Some(n)
            } else {
                None
            },
            _ => envelope_code(value) is None,
        },
{
}

} // verus!
