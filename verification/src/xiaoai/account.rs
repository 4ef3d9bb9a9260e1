//! The two-step login: what is asked of Xiaomi, and what its replies come to.

use crate::brain::client::copy_text;
use crate::decimal::{dec_int, i64_text};
use crate::digest::{
    ascii_upper, base64, base64_text, hex, hex_text, md5, md5_digest, optional_number,
    optional_quoted, quote_optional, sha1, sha1_digest, show_optional, uppercase, upper_cased,
};
use crate::json::{debug, json_debug, member_views, opt_string, Json};
use crate::random::{alphanumeric, alphanumeric_text};
use crate::text::{contains, same, starts_with, what_is_put_in_is_contained};
use crate::xiaoai::error::{XiaoaiErr, XiaoaiErrView};
use crate::xiaoai::sid::Sid;
use vstd::prelude::*;
use vstd::utf8::{encode_utf8, is_ascii_chars, is_ascii_chars_encode_utf8};

verus! {

pub const ACCOUNT_URL: &'static str = "https://account.xiaomi.com";

/// A finished login.
#[derive(Debug, Clone, PartialEq, Eq)]
pub struct AuthData {
    pub user_id: i64,
    /// The `deviceId` this session used; see [`device_id`].
    pub device_id: String,
    pub ssecurity: String,
    pub service_token: String,
    /// Long-lived and equivalent to the password; it is traded for a fresh
    /// `serviceToken`.
    pub pass_token: String,
}

/// What an [`AuthData`] says.
pub struct AuthView {
    pub user_id: int,
    pub device_id: Seq<char>,
    pub ssecurity: Seq<char>,
    pub service_token: Seq<char>,
    pub pass_token: Seq<char>,
}

impl View for AuthData {
    type V = AuthView;

    open spec fn view(&self) -> AuthView {
        AuthView {
            user_id: self.user_id as int,
            device_id: self.device_id@,
            ssecurity: self.ssecurity@,
            service_token: self.service_token@,
            pass_token: self.pass_token@,
        }
    }
}

/// The id this device logs in with: the configured one, or a random one, in upper
/// case. It must be 16 bytes long; any other length is refused.
pub fn device_id(configured: Option<String>) -> (r: Option<String>)
    ensures
        match configured {
            Some(id) => {
                &&& r is Some <==> encode_utf8(upper_cased(id@)).len() == 16
                &&& r matches Some(text) ==> text@ == upper_cased(id@)
            },
            None => r matches Some(text) && text@.len() == 16 && encode_utf8(text@).len() == 16
                && forall|i: int|
                0 <= i < 16 ==> 'A' <= #[trigger] text@[i] <= 'Z' || '0' <= text@[i] <= '9',
        },
{
    let id = match configured {
        Some(id) => uppercase(id.as_str()),
        None => {
            let random = alphanumeric_text(16);
            assert forall|i: int| 0 <= i < random@.len() implies '\0' <= #[trigger] random@[i]
                <= '\u{7f}' by {
                assert(alphanumeric(random@[i]));
            }
            let upper = uppercase(random.as_str());
            assert(is_ascii_chars(upper@)) by {
                assert forall|i: int| 0 <= i < upper@.len() implies '\0' <= #[trigger] upper@[i]
                    <= '\u{7f}' by {
                    assert(upper@[i] == ascii_upper(random@[i]));
                    assert((random@[i] as u32) < 128);
                }
            }
            proof {
                is_ascii_chars_encode_utf8(upper@);
                assert forall|i: int| 0 <= i < 16 implies 'A' <= #[trigger] upper@[i] <= 'Z' || '0'
                    <= upper@[i] <= '9' by {
                    assert(upper@[i] == ascii_upper(random@[i]));
                    assert(alphanumeric(random@[i]));
                }
            }
            upper
        },
    };
    if id.as_str().as_bytes().len() == 16 {
        Some(id)
    } else {
        None
    }
}

/// The password as it is sent: its MD5 digest in upper-case hexadecimal.
pub fn password_hash(password: &str) -> (r: String)
    ensures
        r@ == upper_cased(hex_text(md5_digest(encode_utf8(password@)))),
{
    let digest = md5(password.as_bytes());
    uppercase(hex(digest.as_slice()).as_str())
}

/// The signature of a token exchange.
pub open spec fn signature(nonce: int, ssecurity: Seq<char>) -> Seq<char> {
    base64_text(sha1_digest(encode_utf8("nonce="@ + dec_int(nonce) + "&"@ + ssecurity)))
}

/// Sign a token exchange.
pub fn client_sign(nonce: i64, ssecurity: &str) -> (r: String)
    ensures
        r@ == signature(nonce as int, ssecurity@),
{
    let mut text = "nonce=".to_owned();
    text.append(i64_text(nonce).as_str());
    text.append("&");
    text.append(ssecurity);
    let digest = sha1(text.as_str().as_bytes());
    base64(digest.as_slice())
}

/// A URL with one more query parameter, or why it is no URL.
pub uninterp spec fn url_with_param(
    location: Seq<char>,
    name: Seq<char>,
    value: Seq<char>,
) -> Result<Seq<char>, Seq<char>>;

/// What a URL, or why there is none, says.
pub open spec fn url_outcome(r: Result<String, String>) -> Result<Seq<char>, Seq<char>> {
    match r {
        Ok(url) => Ok(url@),
        Err(e) => Err(e@),
    }
}

/// `reqwest::Url::parse_with_params` with one parameter: the URL `location` with
/// `name=value` added to its query, or the words of the parse error. The three
/// texts alone decide.
#[verifier::external_body]
pub(crate) fn add_param(location: &str, name: &str, value: &str) -> (r: Result<String, String>)
    ensures
        url_outcome(r) == url_with_param(location@, name@, value@),
{
    match reqwest::Url::parse_with_params(location, &[(name, value)]) {
        Ok(url) => Ok(String::from(url)),
        Err(e) => Err(e.to_string()),
    }
}

/// A URL of Xiaomi's account service, made absolute.
pub open spec fn absolute(url: Seq<char>) -> Seq<char> {
    if "http"@.is_prefix_of(url) {
        url
    } else {
        ACCOUNT_URL@ + url
    }
}

/// Make a URL of Xiaomi's account service absolute.
pub fn absolute_url(url: &str) -> (r: String)
    ensures
        r@ == absolute(url@),
{
    if starts_with(url, "http") {
        url.to_owned()
    } else {
        let mut out = ACCOUNT_URL.to_owned();
        out.append(url);
        out
    }
}

/// The first request of a login.
#[derive(Debug, Clone)]
pub struct LoginPayload {
    pub sid: Sid,
    pub device_id: String,
    pub user_id: i64,
    pub pass_token: String,
}

impl Default for LoginPayload {
    fn default() -> (r: Self)
        ensures
            r.sid == Sid::Micoapi,
            r.device_id@.len() == 0,
            r.user_id == 0,
            r.pass_token@.len() == 0,
    {
        LoginPayload {
            sid: Sid::Micoapi,
            device_id: String::new(),
            user_id: 0,
            pass_token: String::new(),
        }
    }
}

impl LoginPayload {
    /// The first request of a login with a password.
    pub fn new(device_id: &str) -> (r: Self)
        ensures
            r.sid == Sid::Micoapi,
            r.device_id@ == device_id@,
            r.user_id == 0,
            r.pass_token@.len() == 0,
    {
        LoginPayload {
            sid: Sid::Micoapi,
            device_id: device_id.to_owned(),
            user_id: 0,
            pass_token: String::new(),
        }
    }
}

/// The second request of a login, which carries the password.
#[derive(Debug, Clone, PartialEq, Eq)]
pub struct LoginPayload2 {
    pub json: bool,
    pub qs: String,
    pub sid: String,
    pub sign: String,
    pub callback: String,
    pub user: String,
    pub hash: String,
}

/// What a [`LoginPayload2`] says.
pub struct PayloadView {
    pub json: bool,
    pub qs: Seq<char>,
    pub sid: Seq<char>,
    pub sign: Seq<char>,
    pub callback: Seq<char>,
    pub user: Seq<char>,
    pub hash: Seq<char>,
}

impl View for LoginPayload2 {
    type V = PayloadView;

    open spec fn view(&self) -> PayloadView {
        PayloadView {
            json: self.json,
            qs: self.qs@,
            sid: self.sid@,
            sign: self.sign@,
            callback: self.callback@,
            user: self.user@,
            hash: self.hash@,
        }
    }
}

impl PayloadView {
    /// The same request for this user.
    pub open spec fn signed(self, user: Seq<char>, hash: Seq<char>) -> PayloadView {
        PayloadView { json: true, user, hash, ..self }
    }
}

impl LoginPayload2 {
    /// The same request for this user.
    pub fn signed(self, user: &str, hash: &str) -> (r: LoginPayload2)
        ensures
            r@ == self@.signed(user@, hash@),
            r.json,
            r.qs@ == self.qs@,
            r.sid@ == self.sid@,
            r.sign@ == self.sign@,
            r.callback@ == self.callback@,
            r.user@ == user@,
            r.hash@ == hash@,
    {
        LoginPayload2 {
            json: true,
            qs: self.qs,
            sid: self.sid,
            sign: self.sign,
            callback: self.callback,
            user: user.to_owned(),
            hash: hash.to_owned(),
        }
    }
}

/// The reply to a [`LoginPayload`].
#[derive(Debug, Clone)]
pub struct LoginResponse {
    pub user_id: Option<i64>,
    pub pass_token: Option<String>,
    pub location: Option<String>,
    pub nonce: Option<i64>,
    pub ssecurity: Option<String>,
    pub payload2: Option<LoginPayload2>,
}

/// The reply to a [`LoginPayload2`]. On failure it holds `code` and `desc`, and
/// possibly a URL where the user has to do something first.
#[derive(Debug)]
pub struct LoginResponse2 {
    pub user_id: Option<i64>,
    pub pass_token: Option<String>,
    pub location: Option<String>,
    pub nonce: Option<i64>,
    pub ssecurity: Option<String>,
    pub code: Option<i64>,
    pub desc: Option<String>,
    pub description: Option<String>,
    pub notification_url: Option<String>,
    pub captcha_url: Option<String>,
    pub extra: Vec<(String, Json)>,
}

/// What Xiaomi hands out to trade for a `serviceToken`.
#[derive(Debug, Clone, PartialEq, Eq)]
pub struct Grant {
    pub location: String,
    pub nonce: i64,
    pub ssecurity: String,
    pub user_id: i64,
    pub pass_token: Option<String>,
}

/// What a [`Grant`] says.
pub struct GrantView {
    pub location: Seq<char>,
    pub nonce: int,
    pub ssecurity: Seq<char>,
    pub user_id: int,
    pub pass_token: Option<Seq<char>>,
}

impl View for Grant {
    type V = GrantView;

    open spec fn view(&self) -> GrantView {
        GrantView {
            location: self.location@,
            nonce: self.nonce as int,
            ssecurity: self.ssecurity@,
            user_id: self.user_id as int,
            pass_token: opt_string(self.pass_token),
        }
    }
}

/// What a grant or an error says.
pub open spec fn grant_outcome(r: Result<Grant, XiaoaiErr>) -> Result<GrantView, XiaoaiErrView> {
    match r {
        Ok(grant) => Ok(grant@),
        Err(e) => Err(e@),
    }
}

/// What a login or an error says.
pub open spec fn auth_outcome(r: Result<AuthData, XiaoaiErr>) -> Result<AuthView, XiaoaiErrView> {
    match r {
        Ok(auth) => Ok(auth@),
        Err(e) => Err(e@),
    }
}

/// The value of the first cookie called `name`, at or after `from`.
pub open spec fn cookie_named(
    cookies: Seq<(String, String)>,
    name: Seq<char>,
    from: int,
) -> Option<Seq<char>>
    decreases cookies.len() - from,
{
    if from < 0 || from >= cookies.len() {
        None
    } else if cookies[from].0@ == name {
        Some(cookies[from].1@)
    } else {
        cookie_named(cookies, name, from + 1)
    }
}

/// The value of the first cookie called `name`.
pub fn find_cookie(cookies: &Vec<(String, String)>, name: &str) -> (r: Option<String>)
    ensures
        opt_string(r) == cookie_named(cookies@, name@, 0),
{
    let mut i: usize = 0;
    while i < cookies.len()
        invariant
            i <= cookies@.len(),
            cookie_named(cookies@, name@, 0) == cookie_named(cookies@, name@, i as int),
        decreases cookies@.len() - i,
    {
        if same(cookies[i].0.as_str(), name) {
            return Some(cookies[i].1.clone());
        }
        i += 1;
    }
    None
}

impl GrantView {
    /// The URL that trades this grant, or the error.
    pub open spec fn url(self) -> Result<Seq<char>, XiaoaiErrView> {
        match url_with_param(
            self.location,
            "clientSign"@,
            signature(self.nonce, self.ssecurity),
        ) {
            Ok(url) => Ok(url),
            Err(e) => Err(XiaoaiErrView::Auth(e)),
        }
    }

    /// The login that the trade's cookies complete.
    pub open spec fn traded(
        self,
        cookies: Seq<(String, String)>,
        device_id: Seq<char>,
    ) -> Result<AuthView, XiaoaiErrView> {
        match cookie_named(cookies, "serviceToken"@, 0) {
            Some(service_token) => Ok(
                AuthView {
                    user_id: self.user_id,
                    device_id,
                    ssecurity: self.ssecurity,
                    service_token,
                    pass_token: match self.pass_token {
                        Some(token) => token,
                        None => Seq::empty(),
                    },
                },
            ),
            None => Err(XiaoaiErrView::Auth("serviceToken not found in cookies"@)),
        }
    }
}

/// What a text or an error says.
pub open spec fn text_outcome(r: Result<String, XiaoaiErr>) -> Result<Seq<char>, XiaoaiErrView> {
    match r {
        Ok(text) => Ok(text@),
        Err(e) => Err(e@),
    }
}

impl Grant {
    /// The URL that trades this grant for a `serviceToken` cookie.
    pub fn url(&self) -> (r: Result<String, XiaoaiErr>)
        ensures
            text_outcome(r) == self@.url(),
    {
        let sign = client_sign(self.nonce, self.ssecurity.as_str());
        match add_param(self.location.as_str(), "clientSign", sign.as_str()) {
            Ok(url) => Ok(url),
            Err(e) => Err(XiaoaiErr::Auth(e)),
        }
    }

    /// The login that the trade's cookies complete.
    pub fn into_auth_data(self, cookies: &Vec<(String, String)>, device_id: &str) -> (r: Result<
        AuthData,
        XiaoaiErr,
    >)
        ensures
            auth_outcome(r) == self@.traded(cookies@, device_id@),
    {
        match find_cookie(cookies, "serviceToken") {
            Some(service_token) => Ok(
                AuthData {
                    user_id: self.user_id,
                    device_id: device_id.to_owned(),
                    ssecurity: self.ssecurity,
                    service_token,
                    pass_token: match self.pass_token {
                        Some(token) => token,
                        None => String::new(),
                    },
                },
            ),
            None => Err(XiaoaiErr::auth("serviceToken not found in cookies")),
        }
    }
}

impl LoginResponse {
    /// What the reply grants to a user it knows, or what it lacks.
    pub open spec fn granted(&self, user_id: int) -> Result<GrantView, XiaoaiErrView> {
        match (opt_string(self.location), self.nonce, opt_string(self.ssecurity)) {
            (None, _, _) => Err(XiaoaiErrView::Auth("location not found in resp"@)),
            (_, None, _) => Err(XiaoaiErrView::Auth("nonce not found in resp"@)),
            (_, _, None) => Err(XiaoaiErrView::Auth("ssecurity not found in resp"@)),
            (Some(location), Some(nonce), Some(ssecurity)) => Ok(
                GrantView {
                    location,
                    nonce: nonce as int,
                    ssecurity,
                    user_id,
                    pass_token: opt_string(self.pass_token),
                },
            ),
        }
    }

    /// What the reply grants to the user `user_id`, who is logged in already.
    pub fn service_token(&self, user_id: i64) -> (r: Result<Grant, XiaoaiErr>)
        ensures
            grant_outcome(r) == self.granted(user_id as int),
    {
        let location = match &self.location {
            Some(location) => location.clone(),
            None => {
                return Err(XiaoaiErr::auth("location not found in resp"));
            },
        };
        let nonce: i64 = match self.nonce {
            Some(nonce) => nonce,
            None => {
                return Err(XiaoaiErr::auth("nonce not found in resp"));
            },
        };
        let ssecurity = match &self.ssecurity {
            Some(ssecurity) => ssecurity.clone(),
            None => {
                return Err(XiaoaiErr::auth("ssecurity not found in resp"));
            },
        };
        Ok(
            Grant { location, nonce, ssecurity, user_id, pass_token: copy_text(&self.pass_token) },
        )
    }
}

/// What a login does after the first reply.
#[derive(Debug)]
pub enum FirstStep {
    /// The session is known: trade the grant.
    Trade(Grant),
    /// The password is asked for.
    Password(LoginPayload2),
}

/// The first reply to a login attempt: trade at once when the session is known,
/// else send the password. The password goes out as a digest.
pub fn try_login(resp: LoginResponse, user: &str, password: &str) -> (r: Result<
    FirstStep,
    XiaoaiErr,
>)
    ensures
        match resp.user_id {
            Some(user_id) => match r {
                Ok(FirstStep::Trade(grant)) => resp.granted(user_id as int)
                    == Ok::<GrantView, XiaoaiErrView>(grant@),
                Ok(FirstStep::Password(_)) => false,
                Err(e) => resp.granted(user_id as int) == Err::<GrantView, XiaoaiErrView>(e@),
            },
            None => match resp.payload2 {
                Some(payload) => r matches Ok(FirstStep::Password(sent)) && sent@
                    == payload@.signed(
                    user@,
                    upper_cased(hex_text(md5_digest(encode_utf8(password@)))),
                ),
                None => r matches Err(e) && e@ == XiaoaiErrView::Auth("payload2 not found in resp"@),
            },
        },
        r matches Ok(FirstStep::Password(sent)) ==> (resp.payload2 matches Some(payload)
            && sent.json && sent.qs@ == payload.qs@ && sent.sid@ == payload.sid@ && sent.sign@
            == payload.sign@ && sent.callback@ == payload.callback@ && sent.user@ == user@
            && sent.hash@ == upper_cased(hex_text(md5_digest(encode_utf8(password@))))),
{
    match resp.user_id {
        Some(user_id) => match resp.service_token(user_id) {
            Ok(grant) => Ok(FirstStep::Trade(grant)),
            Err(e) => Err(e),
        },
        None => match resp.payload2 {
            Some(payload) => Ok(
                FirstStep::Password(payload.signed(user, password_hash(password).as_str())),
            ),
            None => Err(XiaoaiErr::auth("payload2 not found in resp")),
        },
    }
}

/// What a login does after the second reply.
#[derive(Debug)]
pub enum LoginFlow {
    /// Trade the grant, and the login is done.
    Trade(Grant),
    /// The user has to verify their identity at this URL first.
    NeedVerification(String),
}

/// The second reply to a login attempt.
pub fn login_flow(resp: LoginResponse2) -> (r: Result<LoginFlow, XiaoaiErr>)
    ensures
        match opt_string(resp.notification_url) {
            Some(url) => r matches Ok(LoginFlow::NeedVerification(at)) && at@ == absolute(url),
            None => match r {
                Ok(LoginFlow::Trade(grant)) => resp.granted() == Ok::<GrantView, XiaoaiErrView>(
                    grant@,
                ),
                Ok(LoginFlow::NeedVerification(_)) => false,
                Err(e) => resp.granted() == Err::<GrantView, XiaoaiErrView>(e@),
            },
        },
{
    match &resp.notification_url {
        Some(url) => {
            return Ok(LoginFlow::NeedVerification(absolute_url(url.as_str())));
        },
        None => {},
    }
    match resp.into_auth_data() {
        Ok(grant) => Ok(LoginFlow::Trade(grant)),
        Err(e) => Err(e),
    }
}

/// The first of two texts that is there.
pub open spec fn either(a: Option<Seq<char>>, b: Option<Seq<char>>) -> Option<Seq<char>> {
    match a {
        Some(_) => a,
        None => b,
    }
}

/// The first of two texts that is there.
pub(crate) fn first_of(a: &Option<String>, b: &Option<String>) -> (r: Option<String>)
    ensures
        opt_string(r) == either(opt_string(*a), opt_string(*b)),
{
    match a {
        Some(s) => Some(s.clone()),
        None => copy_text(b),
    }
}

impl LoginResponse2 {
    /// What the reply says when it refuses the login.
    pub open spec fn refusal(&self) -> Seq<char> {
        "login rejected: code="@ + optional_number(self.code) + ", desc="@ + optional_quoted(
            either(opt_string(self.desc), opt_string(self.description)),
        ) + ", extra="@ + json_debug(member_views(self.extra@))
    }

    /// What the reply grants, or what stands in the way.
    pub open spec fn granted(&self) -> Result<GrantView, XiaoaiErrView> {
        if self.notification_url is Some {
            Err(
                XiaoaiErrView::Auth(
                    "Xiaomi requires identity verification. Open this URL in a browser, complete the verification, then login again:\n"@
                        + absolute(self.notification_url->0@),
                ),
            )
        } else if self.captcha_url is Some {
            Err(
                XiaoaiErrView::Auth(
                    "Xiaomi requires a captcha:\n"@ + absolute(self.captcha_url->0@),
                ),
            )
        } else {
            match (self.user_id, opt_string(self.ssecurity), self.nonce, opt_string(self.location)) {
                (Some(user_id), Some(ssecurity), Some(nonce), Some(location)) => Ok(
                    GrantView {
                        location,
                        nonce: nonce as int,
                        ssecurity,
                        user_id: user_id as int,
                        pass_token: opt_string(self.pass_token),
                    },
                ),
                _ => Err(XiaoaiErrView::Auth(self.refusal())),
            }
        }
    }

    /// What the reply grants, or what stands in the way.
    pub fn into_auth_data(self) -> (r: Result<Grant, XiaoaiErr>)
        ensures
            grant_outcome(r) == self.granted(),
    {
        match &self.notification_url {
            Some(url) => {
                let mut message = "Xiaomi requires identity verification. Open this URL in a browser, complete the verification, then login again:\n".to_owned();
                message.append(absolute_url(url.as_str()).as_str());
                return Err(XiaoaiErr::Auth(message));
            },
            None => {},
        }
        match &self.captcha_url {
            Some(url) => {
                let mut message = "Xiaomi requires a captcha:\n".to_owned();
                message.append(absolute_url(url.as_str()).as_str());
                return Err(XiaoaiErr::Auth(message));
            },
            None => {},
        }
        match (self.user_id, &self.ssecurity, self.nonce, &self.location) {
            (Some(user_id), Some(ssecurity), Some(nonce), Some(location)) => Ok(
                Grant {
                    location: location.clone(),
                    nonce,
                    ssecurity: ssecurity.clone(),
                    user_id,
                    pass_token: copy_text(&self.pass_token),
                },
            ),
            _ => {
                let mut message = "login rejected: code=".to_owned();
                message.append(show_optional(self.code).as_str());
                message.append(", desc=");
                message.append(
                    quote_optional(&first_of(&self.desc, &self.description)).as_str(),
                );
                message.append(", extra=");
                message.append(debug(&self.extra).as_str());
                Err(XiaoaiErr::Auth(message))
            },
        }
    }
}

/// The request that refreshes a login by its cached `passToken`.
pub fn refresh(auth_data: &AuthData) -> (r: Result<LoginPayload, XiaoaiErr>)
    ensures
        match r {
            Ok(payload) => {
                &&& auth_data.pass_token@.len() > 0
                &&& payload.sid == Sid::Micoapi
                &&& payload.device_id@ == auth_data.device_id@
                &&& payload.user_id == auth_data.user_id
                &&& payload.pass_token@ == auth_data.pass_token@
            },
            Err(e) => auth_data.pass_token@.len() == 0 && e@ == XiaoaiErrView::Auth(
                "no cached passToken; do a full login"@,
            ),
        },
{
    if auth_data.pass_token.as_str().unicode_len() == 0 {
        return Err(XiaoaiErr::auth("no cached passToken; do a full login"));
    }
    Ok(
        LoginPayload {
            sid: Sid::Micoapi,
            device_id: auth_data.device_id.clone(),
            user_id: auth_data.user_id,
            pass_token: auth_data.pass_token.clone(),
        },
    )
}

/// What the reply to a refresh grants. A token that Xiaomi does not renew stays in
/// use.
pub fn refreshed(auth_data: &AuthData, resp: LoginResponse) -> (r: Result<Grant, XiaoaiErr>)
    ensures
        grant_outcome(r) == match resp.user_id {
            None => Err::<GrantView, XiaoaiErrView>(
                XiaoaiErrView::Auth("passToken expired or rejected; do a full login"@),
            ),
            Some(user_id) => match resp.granted(user_id as int) {
                Err(e) => Err(e),
                Ok(grant) => Ok(
                    GrantView {
                        pass_token: either(grant.pass_token, Some(auth_data.pass_token@)),
                        ..grant
                    },
                ),
            },
        },
{
    match resp.user_id {
        None => Err(XiaoaiErr::auth("passToken expired or rejected; do a full login")),
        Some(user_id) => match resp.service_token(user_id) {
            Err(e) => Err(e),
            Ok(grant) => {
                let renewed = match &grant.pass_token {
                    Some(token) => Some(token.clone()),
                    None => Some(auth_data.pass_token.clone()),
                };
                Ok(
                    Grant {
                        location: grant.location,
                        nonce: grant.nonce,
                        ssecurity: grant.ssecurity,
                        user_id: grant.user_id,
                        pass_token: renewed,
                    },
                )
            },
        },
    }
}

/// A refresh never loses the long-lived token: whatever Xiaomi replies, the login
/// that comes of it can be refreshed again if the one before could.
pub proof fn refreshing_keeps_a_pass_token(
    grant: GrantView,
    cookies: Seq<(String, String)>,
    device_id: Seq<char>,
    old_token: Seq<char>,
)
    requires
        old_token.len() > 0,
        grant.pass_token matches Some(token) ==> token.len() > 0,
    ensures
        (GrantView { pass_token: either(grant.pass_token, Some(old_token)), ..grant }).traded(
            cookies,
            device_id,
        ) matches Ok(auth) ==> auth.pass_token.len() > 0,
{
}

/// The password request carries the query string, service, signature and callback of the
/// first reply unchanged, field by field, and the user and password digest that were
/// given, and asks for JSON.
pub proof fn the_password_request_carries_the_first_reply(
    first: PayloadView,
    user: Seq<char>,
    hash: Seq<char>,
)
    ensures
        ({
            let sent = first.signed(user, hash);
            &&& sent.json
            &&& sent.qs == first.qs
            &&& sent.sid == first.sid
            &&& sent.sign == first.sign
            &&& sent.callback == first.callback
            &&& sent.user == user
            &&& sent.hash == hash
        }),
{
}

/// What is said of a password request, of login data and of a grant is what each holds,
/// field by field.
pub proof fn login_values_show_their_fields(payload: LoginPayload2, auth: AuthData, grant: Grant)
    ensures
        payload@.json == payload.json,
        payload@.qs == payload.qs@,
        payload@.sid == payload.sid@,
        payload@.sign == payload.sign@,
        payload@.callback == payload.callback@,
        payload@.user == payload.user@,
        payload@.hash == payload.hash@,
        auth@.user_id == auth.user_id,
        auth@.device_id == auth.device_id@,
        auth@.ssecurity == auth.ssecurity@,
        auth@.service_token == auth.service_token@,
        auth@.pass_token == auth.pass_token@,
        grant@.location == grant.location@,
        grant@.nonce == grant.nonce,
        grant@.ssecurity == grant.ssecurity@,
        grant@.user_id == grant.user_id,
        grant.pass_token matches Some(token) ==> grant@.pass_token == Some(token@),
        grant.pass_token is None ==> grant@.pass_token is None,
{
}

/// The first reply grants a login exactly where it holds a location, a nonce and a
/// security token, and the grant is made of those, of the user it is for and of the pass
/// token where the reply has one. What is missing is named, the first such thing first.
pub proof fn a_first_reply_grants_what_it_holds(resp: LoginResponse, user_id: int)
    ensures
        match resp.granted(user_id) {
            Ok(grant) => {
                &&& resp.location matches Some(location) && grant.location == location@
                &&& resp.nonce matches Some(nonce) && grant.nonce == nonce
                &&& resp.ssecurity matches Some(ssecurity) && grant.ssecurity == ssecurity@
                &&& grant.user_id == user_id
                &&& match resp.pass_token {
                    Some(token) => grant.pass_token == Some(token@),
                    None => grant.pass_token is None,
                }
            },
            Err(XiaoaiErrView::Auth(why)) => {
                ||| resp.location is None && why == "location not found in resp"@
                ||| resp.location is Some && resp.nonce is None && why
                    == "nonce not found in resp"@
                ||| resp.location is Some && resp.nonce is Some && resp.ssecurity is None && why
                    == "ssecurity not found in resp"@
            },
            Err(_) => false,
        },
{
}

/// The second reply grants a login exactly where it asks for no verification and no
/// captcha and holds a user, a security token, a nonce and a location, and the grant is
/// made of those. Asked for a verification or a captcha, the user is told where; refused
/// otherwise, what the server said.
pub proof fn a_second_reply_grants_what_it_holds(resp: LoginResponse2)
    ensures
        match resp.granted() {
            Ok(grant) => {
                &&& resp.notification_url is None && resp.captcha_url is None
                &&& resp.location matches Some(location) && grant.location == location@
                &&& resp.nonce matches Some(nonce) && grant.nonce == nonce
                &&& resp.ssecurity matches Some(ssecurity) && grant.ssecurity == ssecurity@
                &&& resp.user_id matches Some(user_id) && grant.user_id == user_id
                &&& match resp.pass_token {
                    Some(token) => grant.pass_token == Some(token@),
                    None => grant.pass_token is None,
                }
            },
            Err(XiaoaiErrView::Auth(why)) => match (resp.notification_url, resp.captcha_url) {
                (Some(url), _) => absolute(url@).is_suffix_of(why),
                (None, Some(url)) => absolute(url@).is_suffix_of(why),
                (None, None) => {
                    &&& resp.location is None || resp.nonce is None || resp.ssecurity is None
                        || resp.user_id is None
                    &&& contains(why, optional_number(resp.code))
                    &&& contains(
                        why,
                        optional_quoted(
                            match resp.desc {
                                Some(text) => Some(text@),
                                None => opt_string(resp.description),
                            },
                        ),
                    )
                    &&& json_debug(member_views(resp.extra@)).is_suffix_of(why)
                },
            },
            Err(_) => false,
        },
{
    if let Err(XiaoaiErrView::Auth(why)) = resp.granted() {
        match (resp.notification_url, resp.captcha_url) {
            (Some(url), _) => {
                let at = absolute(url@);
                assert(at =~= why.skip(why.len() - at.len()));
            },
            (None, Some(url)) => {
                let at = absolute(url@);
                assert(at =~= why.skip(why.len() - at.len()));
            },
            (None, None) => {
                let open = "login rejected: code="@;
                let code = optional_number(resp.code);
                let desc = optional_quoted(either(opt_string(resp.desc), opt_string(resp.description)));
                let extra = json_debug(member_views(resp.extra@));
                what_is_put_in_is_contained(
                    open,
                    code,
                    ", desc="@ + desc + ", extra="@ + extra,
                );
                assert(why =~= open + code + (", desc="@ + desc + ", extra="@ + extra));
                what_is_put_in_is_contained(
                    open + code + ", desc="@,
                    desc,
                    ", extra="@ + extra,
                );
                assert(why =~= open + code + ", desc="@ + desc + (", extra="@ + extra));
                assert(extra =~= why.skip(why.len() - extra.len()));
            },
        }
    }
}

/// A grant is traded for the service token among the cookies, and the login data is made
/// of that token, of what was granted and of the device it was granted to. Without such a
/// cookie there is no login.
pub proof fn a_grant_is_traded_for_the_service_token(
    grant: GrantView,
    cookies: Seq<(String, String)>,
    device_id: Seq<char>,
)
    ensures
        match grant.traded(cookies, device_id) {
            Ok(auth) => {
                &&& cookie_named(cookies, "serviceToken"@, 0) == Some(auth.service_token)
                &&& auth.user_id == grant.user_id
                &&& auth.device_id == device_id
                &&& auth.ssecurity == grant.ssecurity
                &&& match grant.pass_token {
                    Some(token) => auth.pass_token == token,
                    None => auth.pass_token.len() == 0,
                }
            },
            Err(XiaoaiErrView::Auth(_)) => cookie_named(cookies, "serviceToken"@, 0) is None,
            Err(_) => false,
        },
{
}

/// Of cookies with one name the first counts, and a name that no cookie has is not found.
pub proof fn the_first_cookie_of_a_name_counts(cookies: Seq<(String, String)>, name: Seq<char>)
    ensures
        match cookie_named(cookies, name, 0) {
            Some(value) => exists|i: int|
                0 <= i < cookies.len() && (#[trigger] cookies[i]).0@ == name && cookies[i].1@
                    == value && forall|j: int|
                    0 <= j < i ==> (#[trigger] cookies[j]).0@ != name,
            None => forall|i: int| 0 <= i < cookies.len() ==> (#[trigger] cookies[i]).0@ != name,
        },
{
    first_cookie(cookies, name, 0);
}

proof fn first_cookie(cookies: Seq<(String, String)>, name: Seq<char>, from: int)
    requires
        0 <= from <= cookies.len(),
    ensures
        match cookie_named(cookies, name, from) {
            Some(value) => exists|i: int|
                from <= i < cookies.len() && (#[trigger] cookies[i]).0@ == name && cookies[i].1@
                    == value && forall|j: int|
                    from <= j < i ==> (#[trigger] cookies[j]).0@ != name,
            None => forall|i: int| from <= i < cookies.len() ==> (#[trigger] cookies[i]).0@ != name,
        },
    decreases cookies.len() - from,
{
    if from < cookies.len() {
        if cookies[from].0@ != name {
            first_cookie(cookies, name, from + 1);
            if let Some(value) = cookie_named(cookies, name, from + 1) {
                let i = choose|i: int|
                    from + 1 <= i < cookies.len() && (#[trigger] cookies[i]).0@ == name
                        && cookies[i].1@ == value && forall|j: int|
                        from + 1 <= j < i ==> (#[trigger] cookies[j]).0@ != name;
                assert(cookies[i].0@ == name);
            }
        }
    }
}

/// An address that is absolute stays as it is, and a relative one is taken at the account
/// server; made absolute once, it stays so.
pub proof fn an_address_is_made_absolute_once(url: Seq<char>)
    ensures
        "http"@.is_prefix_of(url) ==> absolute(url) == url,
        !"http"@.is_prefix_of(url) ==> absolute(url) == "https://account.xiaomi.com"@ + url,
        absolute(absolute(url)) == absolute(url),
{
    reveal_strlit("http");
    reveal_strlit("https://account.xiaomi.com");
    let made = ACCOUNT_URL@ + url;
    assert("http"@ =~= made.take(4));
}

/// What a client signs is its nonce and its security token, in this order, each as it is.
pub proof fn a_signature_covers_nonce_and_token(nonce: i64, ssecurity: Seq<char>)
    ensures
        exists|text: Seq<char>|
            {
                let start = "nonce="@ + dec_int(nonce as int) + seq!['&'];
                &&& signature(nonce as int, ssecurity) == base64_text(
                    sha1_digest(#[trigger] encode_utf8(text)),
                )
                &&& start.is_prefix_of(text)
                &&& text.skip(start.len() as int) == ssecurity
            },
{
    reveal_strlit("&");
    assert("&"@ =~= seq!['&']);
    let start = "nonce="@ + dec_int(nonce as int) + seq!['&'];
    let text = "nonce="@ + dec_int(nonce as int) + "&"@ + ssecurity;
    assert(start =~= text.take(start.len() as int));
    assert(text.skip(start.len() as int) =~= ssecurity);
    assert(signature(nonce as int, ssecurity) == base64_text(sha1_digest(encode_utf8(text))));
}

/// A grant leads to its own location, with the signature over its own nonce and security
/// token as `clientSign`.
pub proof fn a_grant_leads_to_its_location(grant: GrantView)
    ensures
        match url_with_param(
            grant.location,
            "clientSign"@,
            signature(grant.nonce, grant.ssecurity),
        ) {
            Ok(url) => grant.url() == Ok::<Seq<char>, XiaoaiErrView>(url),
            Err(e) => grant.url() == Err::<Seq<char>, XiaoaiErrView>(XiaoaiErrView::Auth(e)),
        },
{
}

/// Of two texts the first counts where it is there, else the second.
pub proof fn the_first_text_there_counts(a: Option<Seq<char>>, b: Option<Seq<char>>)
    ensures
        a is Some ==> either(a, b) == a,
        a is None ==> either(a, b) == b,
{
}

} // verus!
