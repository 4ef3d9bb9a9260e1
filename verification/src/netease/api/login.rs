//! Login by QR code.
//!
//! A `unikey` is asked for, the phone app scans a code that names it, and what has
//! become of it is polled. The session cookies arrive with the authorising reply,
//! which is given once.

use crate::json::{json_parse, json_text, Json, JsonView};
use crate::netease::client::{
    api_error, code_of, ensure_ok, envelope_code, envelope_message, read_reply, BASE_URL,
};
use crate::netease::error::{NeteaseErr, NeteaseErrView};
use crate::netease::session::{session_in, Session, SessionView};
use crate::text::views;
use vstd::prelude::*;

verus! {

/// Path of the request for a key.
pub const PATH_UNIKEY: &'static str = "login/qrcode/unikey";

/// Path of the poll.
pub const PATH_POLL: &'static str = "login/qrcode/client/login";

/// The login type that stands for a QR code.
pub const QR_TYPE: i64 = 3;

/// How long to wait between polls, in milliseconds.
pub const POLL_INTERVAL: u64 = 2000;

/// How long the whole scan is given, in milliseconds.
pub const POLL_TIMEOUT: u64 = 180000;

/// The address that a QR code for `unikey` encodes.
pub open spec fn qr_address(unikey: Seq<char>) -> Seq<char> {
    BASE_URL@ + "/login?codekey="@ + unikey
}

/// The URL that a QR code for `unikey` must encode. It always names the real
/// origin: the phone app resolves it.
pub fn qr_url(unikey: &str) -> (r: String)
    ensures
        r@ == qr_address(unikey@),
{
    let mut out = BASE_URL.to_owned();
    out.append("/login?codekey=");
    out.append(unikey);
    out
}

/// A login attempt waiting to be scanned.
#[derive(Debug, Clone, PartialEq, Eq)]
pub struct PendingLogin {
    unikey: String,
    qr_url: String,
}

impl PendingLogin {
    /// The key.
    pub closed spec fn key(&self) -> Seq<char> {
        self.unikey@
    }

    /// The address the code encodes.
    pub closed spec fn address(&self) -> Seq<char> {
        self.qr_url@
    }

    /// The code is for the key.
    pub open spec fn wf(&self) -> bool {
        self.address() == qr_address(self.key())
    }

    /// The attempt that `unikey` identifies.
    pub fn from_unikey(unikey: &str) -> (r: Self)
        ensures
            r.key() == unikey@,
            r.wf(),
    {
        PendingLogin { unikey: unikey.to_owned(), qr_url: qr_url(unikey) }
    }

    /// The key that identifies this attempt.
    pub fn unikey(&self) -> (r: &str)
        ensures
            r@ == self.key(),
    {
        self.unikey.as_str()
    }

    /// The URL to encode into a QR code.
    pub fn qr_url(&self) -> (r: &str)
        requires
            self.wf(),
        ensures
            r@ == qr_address(self.key()),
    {
        self.qr_url.as_str()
    }

    /// The payload that asks what has become of this attempt.
    pub fn poll_payload(&self) -> (r: Json)
        ensures
            r@ == JsonView::empty().with("key"@, JsonView::Str(self.key())).with(
                "type"@,
                JsonView::Int(QR_TYPE as int),
            ),
    {
        Json::empty().with("key", Json::string(self.unikey.as_str())).with(
            "type",
            Json::Int(QR_TYPE),
        )
    }
}

/// What the server says about a pending login. These are ordinary progress, not
/// failures.
#[derive(Debug, Clone, PartialEq, Eq)]
pub enum QrStatus {
    /// The code expired, or was used already.
    Expired,
    /// Nobody has scanned the code yet.
    WaitingForScan,
    /// Scanned; the user is being asked to confirm.
    WaitingForConfirmation,
    /// Authorised, with the session.
    Authorized(Session),
}

/// What a [`QrStatus`] says.
pub enum QrView {
    Expired,
    WaitingForScan,
    WaitingForConfirmation,
    Authorized(SessionView),
}

impl View for QrStatus {
    type V = QrView;

    open spec fn view(&self) -> QrView {
        match *self {
            QrStatus::Expired => QrView::Expired,
            QrStatus::WaitingForScan => QrView::WaitingForScan,
            QrStatus::WaitingForConfirmation => QrView::WaitingForConfirmation,
            QrStatus::Authorized(session) => QrView::Authorized(session@),
        }
    }
}

impl QrView {
    /// The wire code of this state.
    pub open spec fn code(self) -> int {
        match self {
            QrView::Expired => 800,
            QrView::WaitingForScan => 801,
            QrView::WaitingForConfirmation => 802,
            QrView::Authorized(_) => 803,
        }
    }
}

impl QrStatus {
    /// The wire code this state came from.
    pub fn code(&self) -> (r: i64)
        ensures
            r == self@.code(),
    {
        match self {
            QrStatus::Expired => 800,
            QrStatus::WaitingForScan => 801,
            QrStatus::WaitingForConfirmation => 802,
            QrStatus::Authorized(_) => 803,
        }
    }

    /// Whether polling should stop: it succeeded, or the code died.
    pub fn is_final(&self) -> (r: bool)
        ensures
            r == (self@ is Expired || self@ is Authorized),
    {
        match self {
            QrStatus::Expired => true,
            QrStatus::Authorized(_) => true,
            _ => false,
        }
    }
}

/// The payload that asks for a key.
pub fn unikey_payload() -> (r: Json)
    ensures
        r@ == JsonView::empty().with("type"@, JsonView::Int(QR_TYPE as int)),
{
    Json::empty().with("type", Json::Int(QR_TYPE))
}

/// What the reply to a request for a key comes to. Here another code than 200 is a
/// failure.
pub fn create(value: &Json) -> (r: Result<PendingLogin, NeteaseErr>)
    ensures
        ({
            let code = envelope_code(value@);
            if code is Some && code != Some(200int) {
                r matches Err(e) && e@ == (NeteaseErrView::Api {
                    code: code->0,
                    message: envelope_message(value@),
                })
            } else {
                match value@.text_of("unikey"@) {
                    Some(unikey) => r matches Ok(pending) && pending.key() == unikey
                        && pending.wf(),
                    None => r matches Err(e) && e@ == NeteaseErrView::BadRequest(
                        "no unikey in response: "@ + json_text(value@),
                    ),
                }
            }
        }),
{
    match ensure_ok(value) {
        Ok(_) => {},
        Err(e) => {
            return Err(e);
        },
    }
    match value.text_of("unikey") {
        Some(unikey) => Ok(PendingLogin::from_unikey(unikey)),
        None => {
            let mut message = "no unikey in response: ".to_owned();
            message.append(value.render().as_str());
            Err(NeteaseErr::BadRequest(message))
        },
    }
}

/// What a status or an error says.
pub open spec fn qr_outcome(r: Result<QrStatus, NeteaseErr>) -> Result<QrView, NeteaseErrView> {
    match r {
        Ok(status) => Ok(status@),
        Err(e) => Err(e@),
    }
}

/// What a poll's reply means, given the document its body is and the session its
/// headers carry.
pub open spec fn poll_meaning(
    text: Seq<char>,
    value: JsonView,
    session: Option<SessionView>,
) -> Result<QrView, NeteaseErrView> {
    match envelope_code(value) {
        None => Err(NeteaseErrView::BadRequest("no code in poll response: "@ + text)),
        Some(code) => if code == 800 {
            Ok(QrView::Expired)
        } else if code == 801 {
            Ok(QrView::WaitingForScan)
        } else if code == 802 {
            Ok(QrView::WaitingForConfirmation)
        } else if code == 803 {
            match session {
                Some(session) => Ok(QrView::Authorized(session)),
                None => Err(
                    NeteaseErrView::BadRequest(
                        "login authorised (803) but the response carried no MUSIC_U cookie"@,
                    ),
                ),
            }
        } else {
            Err(NeteaseErrView::Api { code, message: envelope_message(value) })
        },
    }
}

/// What an optional session says.
pub open spec fn session_view(session: Option<Session>) -> Option<SessionView> {
    match session {
        Some(s) => Some(s@),
        None => None,
    }
}

/// What a poll's reply means.
pub fn poll_status(text: &str, value: &Json, session: Option<Session>) -> (r: Result<
    QrStatus,
    NeteaseErr,
>)
    ensures
        qr_outcome(r) == poll_meaning(text@, value@, session_view(session)),
{
    let code: i64 = match code_of(value) {
        Some(code) => code,
        None => {
            let mut message = "no code in poll response: ".to_owned();
            message.append(text);
            return Err(NeteaseErr::BadRequest(message));
        },
    };
    if code == 800 {
        Ok(QrStatus::Expired)
    } else if code == 801 {
        Ok(QrStatus::WaitingForScan)
    } else if code == 802 {
        Ok(QrStatus::WaitingForConfirmation)
    } else if code == 803 {
        match session {
            Some(session) => Ok(QrStatus::Authorized(session)),
            None => Err(
                NeteaseErr::BadRequest(
                    "login authorised (803) but the response carried no MUSIC_U cookie".to_owned(),
                ),
            ),
        }
    } else {
        Err(api_error(code, value))
    }
}

/// What has become of a pending login, by the body of the poll's reply and its
/// `Set-Cookie` headers.
pub fn poll(text: &str, set_cookies: &Vec<String>) -> (r: Result<QrStatus, NeteaseErr>)
    ensures
        qr_outcome(r) == match json_parse(text@) {
            Ok(value) => poll_meaning(text@, value, session_in(views(set_cookies@))),
            Err(e) => Err::<QrView, NeteaseErrView>(NeteaseErrView::Decode(e)),
        },
{
    let session = Session::from_headers(set_cookies);
    match read_reply(text) {
        Ok(value) => poll_status(text, &value, session),
        Err(e) => Err(e),
    }
}

/// A span of time in words.
pub uninterp spec fn span_words(millis: u64) -> Seq<char>;

/// The `Debug` form of `std::time::Duration`: the span in its largest fitting
/// unit, which the span alone decides.
#[verifier::external_body]
fn span_text(millis: u64) -> (r: String)
    ensures
        r@ == span_words(millis),
{
    format!("{:?}", std::time::Duration::from_millis(millis))
}

/// What waiting for a scan does after a poll.
pub fn wait(status: QrStatus, now: u64, interval: u64, deadline: u64, timeout: u64) -> (r: Result<
    Option<Session>,
    NeteaseErr,
>)
    ensures
        match status {
            QrStatus::Authorized(session) => r == Ok::<Option<Session>, NeteaseErr>(Some(session)),
            QrStatus::Expired => r matches Err(e) && e@ == (NeteaseErrView::Api {
                code: 800,
                message: Some("qr code expired before it was confirmed"@),
            }),
            _ => if now + interval >= deadline {
                r matches Err(e) && e@ == (NeteaseErrView::Api {
                    code: 800,
                    message: Some(
                        "gave up waiting for the qr scan after "@ + span_words(timeout),
                    ),
                })
            } else {
                r == Ok::<Option<Session>, NeteaseErr>(None)
            },
        },
{
    match status {
        QrStatus::Authorized(session) => Ok(Some(session)),
        QrStatus::Expired => Err(
            NeteaseErr::Api {
                code: 800,
                message: Some("qr code expired before it was confirmed".to_owned()),
            },
        ),
        _ => if deadline <= now || deadline - now <= interval {
            let mut message = "gave up waiting for the qr scan after ".to_owned();
            message.append(span_text(timeout).as_str());
            Err(NeteaseErr::Api { code: 800, message: Some(message) })
        } else {
            Ok(None)
        },
    }
}

/// A status that a poll reports names the code the server sent.
pub proof fn a_status_names_its_code(
    text: Seq<char>,
    value: JsonView,
    session: Option<SessionView>,
)
    ensures
        poll_meaning(text, value, session) matches Ok(status) ==> envelope_code(value) == Some(
            status.code(),
        ),
        poll_meaning(text, value, session) matches Ok(QrView::Authorized(s)) ==> session == Some(s),
{
}

/// The code to scan leads to the login page with the very key that is then asked about.
pub proof fn the_code_leads_to_its_key(unikey: Seq<char>)
    ensures
        ("https://music.163.com"@ + "/login?codekey="@).is_prefix_of(qr_address(unikey)),
        qr_address(unikey).skip(("https://music.163.com"@ + "/login?codekey="@).len() as int)
            == unikey,
{
    let start = "https://music.163.com"@ + "/login?codekey="@;
    let url = qr_address(unikey);
    assert(start =~= url.take(start.len() as int));
    assert(url.skip(start.len() as int) =~= unikey);
}

/// Each of the four codes is a status of its own; an authorised login needs the session
/// that comes with it. Any other code is the server's error, with its message, and a reply
/// without a code is shown as it came.
pub proof fn each_code_has_its_meaning(
    text: Seq<char>,
    value: JsonView,
    session: Option<SessionView>,
)
    ensures
        match envelope_code(value) {
            None => poll_meaning(text, value, session) matches Err(
                NeteaseErrView::BadRequest(words),
            ) && text.is_suffix_of(words),
            Some(code) => {
                &&& code == 800 ==> poll_meaning(text, value, session) == Ok::<
                    QrView,
                    NeteaseErrView,
                >(QrView::Expired)
                &&& code == 801 ==> poll_meaning(text, value, session) == Ok::<
                    QrView,
                    NeteaseErrView,
                >(QrView::WaitingForScan)
                &&& code == 802 ==> poll_meaning(text, value, session) == Ok::<
                    QrView,
                    NeteaseErrView,
                >(QrView::WaitingForConfirmation)
                &&& code == 803 && session is Some ==> poll_meaning(text, value, session) == Ok::<
                    QrView,
                    NeteaseErrView,
                >(QrView::Authorized(session->0))
                &&& code == 803 && session is None ==> poll_meaning(text, value, session) is Err
                &&& code < 800 || code > 803 ==> poll_meaning(text, value, session) == Err::<
                    QrView,
                    NeteaseErrView,
                >(NeteaseErrView::Api { code, message: envelope_message(value) })
            },
        },
{
    if envelope_code(value) is None {
        let words = "no code in poll response: "@ + text;
        assert(text =~= words.skip(words.len() - text.len()));
    }
}

/// What is said of a login's status is what it holds, and each status has one code.
pub proof fn a_status_shows_what_it_holds(status: QrStatus)
    ensures
        match status {
            QrStatus::Expired => status@ == QrView::Expired && status@.code() == 800,
            QrStatus::WaitingForScan => status@ == QrView::WaitingForScan && status@.code() == 801,
            QrStatus::WaitingForConfirmation => status@ == QrView::WaitingForConfirmation
                && status@.code() == 802,
            QrStatus::Authorized(session) => status@ == QrView::Authorized(session@)
                && status@.code() == 803,
        },
{
}

} // verus!
