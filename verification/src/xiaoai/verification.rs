//! The interactive identity verification that Xiaomi may demand of a login.
//!
//! A code is sent to the user, the user enters it, and the login is resumed in the
//! session that was verified. Whoever drives this does the requests; what to ask
//! and what the replies come to is decided here.

use crate::brain::client::copy_text;
use crate::decimal::{dec_int, i64_text, parsed_i64, written_signed_number_reads_back};
use crate::digest::{optional_number, optional_quoted, quote_optional, show_optional};
use crate::json::{opt_string, opt_view};
use crate::text::{
    contains, find_text, has, joined, occurs_at, pieces, replace, replaced,
    replacing_nothing_changes_nothing, replacing_replaces_the_pattern_alone, same, split,
    splitting_loses_nothing, starts_with, strip_prefix, trim, trimmed, views,
    what_is_put_in_is_contained,
};
use crate::xiaoai::account::{
    absolute, absolute_url, auth_outcome, cookie_named, either, find_cookie, first_of,
    grant_outcome, AuthData, AuthView, Grant, GrantView, LoginPayload2, LoginResponse,
    LoginResponse2,
};
use crate::xiaoai::error::{XiaoaiErr, XiaoaiErrView};
use crate::xiaoai::redact::{excerpt, snippet};
use vstd::prelude::*;

verus! {

/// The two texts a login from the environment needs.
pub fn credentials(id: Option<String>, password: Option<String>) -> (r: Result<
    (String, String),
    XiaoaiErr,
>)
    ensures
        match (id, password) {
            (None, _) => r matches Err(e) && e@ == XiaoaiErrView::Auth(
                "ACCOUNT_ID env var not found"@,
            ),
            (Some(_), None) => r matches Err(e) && e@ == XiaoaiErrView::Auth(
                "ACCOUNT_PASSWORD env var not found"@,
            ),
            (Some(user), Some(secret)) => r == Ok::<(String, String), XiaoaiErr>((user, secret)),
        },
{
    match (id, password) {
        (None, _) => Err(XiaoaiErr::auth("ACCOUNT_ID env var not found")),
        (Some(_), None) => Err(XiaoaiErr::auth("ACCOUNT_PASSWORD env var not found")),
        (Some(user), Some(secret)) => Ok((user, secret)),
    }
}

/// The code in a line the user entered; an empty line aborts.
pub fn entered_ticket(line: &str) -> (r: Result<&str, XiaoaiErr>)
    ensures
        match r {
            Ok(ticket) => ticket@ == trimmed(line@) && ticket@.len() > 0,
            Err(e) => trimmed(line@).len() == 0 && e@ == XiaoaiErrView::Auth(
                "verification aborted"@,
            ),
        },
{
    let ticket = trim(line);
    if ticket.unicode_len() == 0 {
        Err(XiaoaiErr::auth("verification aborted"))
    } else {
        Ok(ticket)
    }
}

/// How a code reached the user, given the methods it was sent by.
pub fn delivery(sent: &Vec<i64>) -> (r: &'static str)
    ensures
        r@ == if sent@.contains(8i64) {
            "email"@
        } else {
            "SMS"@
        },
{
    let mut i: usize = 0;
    while i < sent.len()
        invariant
            i <= sent@.len(),
            forall|j: int| 0 <= j < i ==> sent@[j] != 8,
        decreases sent@.len() - i,
    {
        if sent[i] == 8 {
            return "email";
        }
        i += 1;
    }
    "SMS"
}

/// The URL of the JSON API behind a verification page: the same query, another
/// path.
pub open spec fn list_url_of(verify_url: Seq<char>) -> Seq<char> {
    if crate::text::contains(verify_url, "fe/service/identity/authStart"@) {
        replaced(verify_url, "fe/service/identity/authStart"@, "identity/list"@)
    } else {
        replaced(verify_url, "identity/authStart"@, "identity/list"@)
    }
}

/// The value that a cookie header gives `name`.
pub open spec fn header_cookie(parts: Seq<Seq<char>>, name: Seq<char>, from: int) -> Option<
    Seq<char>,
>
    decreases parts.len() - from,
{
    let start = name + "="@;
    if from < 0 || from >= parts.len() {
        None
    } else if start.is_prefix_of(parts[from]) {
        Some(parts[from].skip(start.len() as int))
    } else {
        header_cookie(parts, name, from + 1)
    }
}

/// The value that the cookies of a jar, as one header, give `name`.
pub open spec fn jar_cookie(header: Option<Seq<char>>, name: Seq<char>) -> Option<Seq<char>> {
    match header {
        Some(text) => header_cookie(pieces(text, "; "@), name, 0),
        None => None,
    }
}

/// Read a cookie out of a header of the form `a=1; b=2`.
pub fn cookie(header: Option<&str>, name: &str) -> (r: Option<String>)
    ensures
        opt_string(r) == jar_cookie(opt_view(header), name@),
{
    let text = match header {
        Some(text) => text,
        None => {
            return None;
        },
    };
    proof {
        reveal_strlit("; ");
    }
    let parts = split(text, "; ");
    let ghost all = views(parts@);
    let mut start = name.to_owned();
    start.append("=");
    let mut i: usize = 0;
    while i < parts.len()
        invariant
            i <= parts@.len(),
            all == views(parts@),
            header == Some(text),
            all == pieces(text@, "; "@),
            start@ == name@ + "="@,
            header_cookie(all, name@, 0) == header_cookie(all, name@, i as int),
        decreases parts@.len() - i,
    {
        assert(all[i as int] == parts@[i as int]@);
        match strip_prefix(parts[i].as_str(), start.as_str()) {
            Some(value) => {
                return Some(value.to_owned());
            },
            None => {},
        }
        i += 1;
    }
    None
}

/// The reply that lists the verification methods.
#[derive(Debug, Clone)]
pub struct IdentityListResponse {
    pub flag: Option<i64>,
    pub options: Option<Vec<i64>>,
}

/// The reply to sending or verifying a code.
#[derive(Debug, Clone)]
pub struct VerifyTicketResponse {
    pub code: Option<i64>,
    pub location: Option<String>,
    pub desc: Option<String>,
    pub description: Option<String>,
}

impl VerifyTicketResponse {
    /// The code and description, as an error message shows them.
    pub open spec fn shown(&self) -> Seq<char> {
        "code="@ + optional_number(self.code) + ", desc="@ + optional_quoted(
            either(opt_string(self.desc), opt_string(self.description)),
        )
    }

    /// The code and description, as an error message shows them.
    fn show(&self) -> (r: String)
        ensures
            r@ == self.shown(),
    {
        let mut out = "code=".to_owned();
        out.append(show_optional(self.code).as_str());
        out.append(", desc=");
        out.append(quote_optional(&first_of(&self.desc, &self.description)).as_str());
        out
    }
}

/// The offered methods: 4 is SMS, 8 is email. Without a list the single flag
/// counts, and without that SMS.
pub open spec fn offered(parsed: Option<IdentityListResponse>) -> Seq<i64> {
    match parsed {
        Some(IdentityListResponse { flag, options: Some(options) }) => if options@.len() > 0 {
            options@
        } else {
            seq![
                match flag {
                    Some(f) => f,
                    None => 4i64,
                },
            ]
        },
        Some(IdentityListResponse { flag: Some(f), options: None }) => seq![f],
        _ => seq![4i64],
    }
}

/// A pending identity verification.
#[derive(Debug)]
pub struct Verification {
    verify_url: String,
    list_url: String,
    options: Vec<i64>,
    user: String,
    hash: String,
    sid: String,
}

/// What a [`Verification`] is.
pub struct VerificationView {
    pub verify_url: Seq<char>,
    pub list_url: Seq<char>,
    pub options: Seq<i64>,
    pub user: Seq<char>,
    pub hash: Seq<char>,
    pub sid: Seq<char>,
}

impl View for Verification {
    type V = VerificationView;

    closed spec fn view(&self) -> VerificationView {
        VerificationView {
            verify_url: self.verify_url@,
            list_url: self.list_url@,
            options: self.options@,
            user: self.user@,
            hash: self.hash@,
            sid: self.sid@,
        }
    }
}

/// The cookie that tells Xiaomi which device is logging in.
pub fn device_cookie(device_id: &str, domain: &str) -> (r: String)
    ensures
        r@ == "deviceId="@ + device_id@ + "; Domain="@ + domain@ + "; Path=/"@,
{
    let mut out = "deviceId=".to_owned();
    out.append(device_id);
    out.append("; Domain=");
    out.append(domain);
    out.append("; Path=/");
    out
}

/// The cookie that tells Xiaomi which SDK is logging in.
pub fn sdk_cookie(domain: &str) -> (r: String)
    ensures
        r@ == "sdkVersion=3.9; Domain="@ + domain@ + "; Path=/"@,
{
    let mut out = "sdkVersion=3.9; Domain=".to_owned();
    out.append(domain);
    out.append("; Path=/");
    out
}

impl Verification {
    /// The verification that `verify_url` asks for, of the login that `payload2`
    /// attempted. Its methods are not known yet.
    pub fn start(verify_url: String, payload2: &LoginPayload2) -> (r: Self)
        ensures
            r@ == (VerificationView {
                verify_url: verify_url@,
                list_url: list_url_of(verify_url@),
                options: Seq::empty(),
                user: payload2.user@,
                hash: payload2.hash@,
                sid: payload2.sid@,
            }),
    {
        proof {
            reveal_strlit("fe/service/identity/authStart");
            reveal_strlit("identity/authStart");
        }
        let list_url = if has(verify_url.as_str(), "fe/service/identity/authStart") {
            replace(verify_url.as_str(), "fe/service/identity/authStart", "identity/list")
        } else {
            replace(verify_url.as_str(), "identity/authStart", "identity/list")
        };
        Verification {
            verify_url,
            list_url,
            options: Vec::new(),
            user: payload2.user.clone(),
            hash: payload2.hash.clone(),
            sid: payload2.sid.clone(),
        }
    }

    /// The URL to open in a browser to request a code there.
    pub fn url(&self) -> (r: &str)
        ensures
            r@ == self@.verify_url,
    {
        self.verify_url.as_str()
    }

    /// The URL that lists the methods and opens the session.
    pub fn list_url(&self) -> (r: &str)
        ensures
            r@ == self@.list_url,
    {
        self.list_url.as_str()
    }

    /// The service the login is for.
    pub fn sid(&self) -> (r: &str)
        ensures
            r@ == self@.sid,
    {
        self.sid.as_str()
    }

    /// The reply to [`Verification::list_url`]: whether it opened the session, its
    /// body, and what the body says if it says anything. Without a session there
    /// is nothing to verify in.
    pub fn fetch_options(
        &mut self,
        got_session: bool,
        text: &str,
        parsed: Option<IdentityListResponse>,
    ) -> (r: Result<(), XiaoaiErr>)
        ensures
            match r {
                Ok(_) => got_session && final(self)@ == (VerificationView {
                    options: offered(parsed),
                    ..old(self)@
                }),
                Err(e) => !got_session && *final(self) == *old(self) && e@ == XiaoaiErrView::Auth(
                    "identity/list did not set identity_session cookie; body: "@ + excerpt(text@),
                ),
            },
    {
        if !got_session {
            let mut message = "identity/list did not set identity_session cookie; body: ".to_owned();
            message.append(snippet(text).as_str());
            return Err(XiaoaiErr::Auth(message));
        }
        let mut fallback: i64 = 4;
        match parsed {
            Some(resp) => {
                match resp.flag {
                    Some(f) => {
                        fallback = f;
                    },
                    None => {},
                }
                match resp.options {
                    Some(options) => if options.len() > 0 {
                        self.options = options;
                        return Ok(());
                    },
                    None => {},
                }
            },
            None => {},
        }
        let mut options: Vec<i64> = Vec::new();
        options.push(fallback);
        assert(options@ =~= offered(parsed));
        self.options = options;
        Ok(())
    }

    /// Begin asking Xiaomi to send a code to this session.
    pub fn send_ticket(&self) -> (r: Tickets)
        ensures
            r@ == (TicketsView {
                sending: true,
                options: self@.options,
                at: next_method(self@.options, 0),
                sent: Seq::empty(),
                last: "no supported verification method"@,
            }),
            r@.wf(),
    {
        Tickets::begin(true, copy_flags(&self.options))
    }

    /// Begin submitting the code the user received.
    pub fn submit_ticket(&self) -> (r: Tickets)
        ensures
            r@ == (TicketsView {
                sending: false,
                options: self@.options,
                at: next_method(self@.options, 0),
                sent: Seq::empty(),
                last: "no supported verification method"@,
            }),
            r@.wf(),
    {
        Tickets::begin(false, copy_flags(&self.options))
    }

    /// The first reply of the resumed login. What was captured before the
    /// verification is bound to the unverified attempt, so the login starts over;
    /// the password step is skipped when the session is known already.
    pub fn resume_login(&self, text: &str, parsed: Result<LoginResponse, String>) -> (r: Result<
        Resumed,
        XiaoaiErr,
    >)
        ensures
            match parsed {
                Err(e) => r matches Err(err) && err@ == XiaoaiErrView::Auth(
                    "serviceLogin resume: "@ + e@ + "; body: "@ + excerpt(text@),
                ),
                Ok(resp) => match complete(
                    resp.user_id,
                    opt_string(resp.location),
                    opt_string(resp.ssecurity),
                    resp.nonce,
                    opt_string(resp.pass_token),
                ) {
                    Some(grant) => r matches Ok(Resumed::Finish(g)) && g@ == grant,
                    None => match resp.payload2 {
                        Some(payload) => r matches Ok(Resumed::Password(sent)) && sent@
                            == payload@.signed(self@.user, self@.hash),
                        None => r matches Err(err) && err@ == XiaoaiErrView::Auth(
                            "serviceLogin after verification returned neither a location nor sign parameters; body: "@
                                + excerpt(text@),
                        ),
                    },
                },
            },
            r matches Ok(Resumed::Password(sent)) ==> (parsed matches Ok(resp) && (resp.payload2
                matches Some(payload) && sent.json && sent.qs@ == payload.qs@ && sent.sid@
                == payload.sid@ && sent.sign@ == payload.sign@ && sent.callback@
                == payload.callback@ && sent.user@ == self@.user && sent.hash@ == self@.hash)),
    {
        let resp = match parsed {
            Ok(resp) => resp,
            Err(e) => {
                return Err(with_body("serviceLogin resume: ", e.as_str(), text));
            },
        };
        match grant_of(
            resp.user_id,
            &resp.location,
            &resp.ssecurity,
            resp.nonce,
            &resp.pass_token,
        ) {
            Some(grant) => {
                return Ok(Resumed::Finish(grant));
            },
            None => {},
        }
        match resp.payload2 {
            Some(payload) => Ok(
                Resumed::Password(payload.signed(self.user.as_str(), self.hash.as_str())),
            ),
            None => {
                let mut message = "serviceLogin after verification returned neither a location nor sign parameters; body: ".to_owned();
                message.append(snippet(text).as_str());
                Err(XiaoaiErr::Auth(message))
            },
        }
    }

    /// The reply to the password in the resumed login. `verify_body` and
    /// `login_body` are the two replies before it.
    pub fn resume_password(
        &self,
        verify_body: &str,
        login_body: &str,
        text: &str,
        parsed: Result<LoginResponse2, String>,
    ) -> (r: Result<Grant, XiaoaiErr>)
        ensures
            grant_outcome(r) == match parsed {
                Err(e) => Err::<GrantView, XiaoaiErrView>(
                    XiaoaiErrView::Auth(
                        "serviceLoginAuth2 retry: "@ + e@ + "; body: "@ + excerpt(text@),
                    ),
                ),
                Ok(resp) => if resp.notification_url is Some {
                    Err(
                        XiaoaiErrView::Auth(
                            "Xiaomi still demands verification after the code was accepted.\nverify said: "@
                                + excerpt(verify_body@) + "\nserviceLogin said: "@ + excerpt(
                                login_body@,
                            ) + "\nserviceLoginAuth2 said: "@ + excerpt(text@),
                        ),
                    )
                } else {
                    match complete(
                        resp.user_id,
                        opt_string(resp.location),
                        opt_string(resp.ssecurity),
                        resp.nonce,
                        opt_string(resp.pass_token),
                    ) {
                        Some(grant) => Ok(grant),
                        None => resp.granted(),
                    }
                },
            },
    {
        let resp = match parsed {
            Ok(resp) => resp,
            Err(e) => {
                return Err(with_body("serviceLoginAuth2 retry: ", e.as_str(), text));
            },
        };
        if resp.notification_url.is_some() {
            let mut message = "Xiaomi still demands verification after the code was accepted.\nverify said: ".to_owned();
            message.append(snippet(verify_body).as_str());
            message.append("\nserviceLogin said: ");
            message.append(snippet(login_body).as_str());
            message.append("\nserviceLoginAuth2 said: ");
            message.append(snippet(text).as_str());
            return Err(XiaoaiErr::Auth(message));
        }
        match grant_of(
            resp.user_id,
            &resp.location,
            &resp.ssecurity,
            resp.nonce,
            &resp.pass_token,
        ) {
            Some(grant) => Ok(grant),
            None => resp.into_auth_data(),
        }
    }

    /// The login that trading `grant` in this session completes, by the cookies of
    /// the reply and those the session's jar holds for the same URL.
    pub fn finish(
        grant: Grant,
        cookies: &Vec<(String, String)>,
        jar: Option<&str>,
        device_id: &str,
    ) -> (r: Result<AuthData, XiaoaiErr>)
        ensures
            auth_outcome(r) == match either(
                cookie_named(cookies@, "serviceToken"@, 0),
                jar_cookie(opt_view(jar), "serviceToken"@),
            ) {
                None => Err::<AuthView, XiaoaiErrView>(
                    XiaoaiErrView::Auth("serviceToken not found in cookies after verification"@),
                ),
                Some(service_token) => Ok(
                    AuthView {
                        user_id: grant@.user_id,
                        device_id: device_id@,
                        ssecurity: grant@.ssecurity,
                        service_token,
                        pass_token: match either(
                            grant@.pass_token,
                            jar_cookie(opt_view(jar), "passToken"@),
                        ) {
                            Some(token) => token,
                            None => Seq::empty(),
                        },
                    },
                ),
            },
    {
        let service_token = match find_cookie(cookies, "serviceToken") {
            Some(token) => token,
            None => match cookie(jar, "serviceToken") {
                Some(token) => token,
                None => {
                    return Err(
                        XiaoaiErr::auth("serviceToken not found in cookies after verification"),
                    );
                },
            },
        };
        let pass_token = match grant.pass_token {
            Some(token) => token,
            None => match cookie(jar, "passToken") {
                Some(token) => token,
                None => String::new(),
            },
        };
        Ok(
            AuthData {
                user_id: grant.user_id,
                device_id: device_id.to_owned(),
                ssecurity: grant.ssecurity,
                service_token,
                pass_token,
            },
        )
    }
}

/// What a resumed login does after its first reply.
#[derive(Debug)]
pub enum Resumed {
    /// The session is known: trade the grant.
    Finish(Grant),
    /// The password is asked for again.
    Password(LoginPayload2),
}

/// A grant, when everything that makes one is there.
pub open spec fn complete(
    user_id: Option<i64>,
    location: Option<Seq<char>>,
    ssecurity: Option<Seq<char>>,
    nonce: Option<i64>,
    pass_token: Option<Seq<char>>,
) -> Option<GrantView> {
    match (user_id, location, ssecurity, nonce) {
        (Some(user_id), Some(location), Some(ssecurity), Some(nonce)) => Some(
            GrantView {
                location,
                nonce: nonce as int,
                ssecurity,
                user_id: user_id as int,
                pass_token,
            },
        ),
        _ => None,
    }
}

/// A grant, when everything that makes one is there.
fn grant_of(
    user_id: Option<i64>,
    location: &Option<String>,
    ssecurity: &Option<String>,
    nonce: Option<i64>,
    pass_token: &Option<String>,
) -> (r: Option<Grant>)
    ensures
        ({
            let want = complete(
                user_id,
                opt_string(*location),
                opt_string(*ssecurity),
                nonce,
                opt_string(*pass_token),
            );
            &&& r is Some <==> want is Some
            &&& r matches Some(grant) ==> want == Some(grant@)
        }),
{
    match (user_id, location, ssecurity, nonce) {
        (Some(user_id), Some(location), Some(ssecurity), Some(nonce)) => Some(
            Grant {
                location: location.clone(),
                nonce,
                ssecurity: ssecurity.clone(),
                user_id,
                pass_token: copy_text(pass_token),
            },
        ),
        _ => None,
    }
}

/// A reply that does not parse, with its body.
fn with_body(label: &str, e: &str, body: &str) -> (r: XiaoaiErr)
    ensures
        r@ == XiaoaiErrView::Auth(label@ + e@ + "; body: "@ + excerpt(body@)),
{
    let mut message = label.to_owned();
    message.append(e);
    message.append("; body: ");
    message.append(snippet(body).as_str());
    XiaoaiErr::Auth(message)
}

fn copy_flags(flags: &Vec<i64>) -> (r: Vec<i64>)
    ensures
        r@ == flags@,
{
    let mut out: Vec<i64> = Vec::new();
    let mut i: usize = 0;
    while i < flags.len()
        invariant
            i <= flags@.len(),
            out@ == flags@.take(i as int),
        decreases flags@.len() - i,
    {
        out.push(flags[i]);
        i += 1;
        assert(out@ =~= flags@.take(i as int));
    }
    assert(flags@.take(flags@.len() as int) =~= flags@);
    out
}

/// The methods that are understood: 4 is SMS, 8 is email.
pub open spec fn supported(flag: i64) -> bool {
    flag == 4 || flag == 8
}

/// The endpoint that sends, or verifies, a code by the method `flag`.
pub open spec fn endpoint(sending: bool, flag: i64) -> Seq<char> {
    if sending {
        if flag == 4 {
            "sendPhoneTicket"@
        } else {
            "sendEmailTicket"@
        }
    } else {
        if flag == 4 {
            "verifyPhone"@
        } else {
            "verifyEmail"@
        }
    }
}

/// The first supported method at or after `from`, or the number of methods.
pub open spec fn next_method(options: Seq<i64>, from: int) -> int
    decreases options.len() - from,
{
    if from >= options.len() {
        options.len() as int
    } else if supported(options[from]) {
        from
    } else {
        next_method(options, from + 1)
    }
}

/// Trying the offered methods one after the other.
pub struct TicketsView {
    /// Whether codes are being sent, or one is being verified.
    pub sending: bool,
    pub options: Seq<i64>,
    /// The method that is next.
    pub at: int,
    /// The methods that succeeded.
    pub sent: Seq<i64>,
    /// Why the last one that failed did.
    pub last: Seq<char>,
}

impl TicketsView {
    /// What is next is a supported method, or nothing is left.
    pub open spec fn wf(self) -> bool {
        &&& 0 <= self.at <= self.options.len()
        &&& self.at < self.options.len() ==> supported(self.options[self.at])
    }

    /// The endpoint to ask next.
    pub open spec fn api(self) -> Seq<char> {
        endpoint(self.sending, self.options[self.at])
    }

    /// After the current method replied with `resp`.
    pub open spec fn after(self, resp: VerifyTicketResponse) -> TicketsView {
        let next = next_method(self.options, self.at + 1);
        if resp.code == Some(0i64) {
            TicketsView { at: next, sent: self.sent.push(self.options[self.at]), ..self }
        } else {
            TicketsView {
                at: next,
                last: self.api() + (if self.sending {
                    ": "@
                } else {
                    " rejected: "@
                }) + resp.shown(),
                ..self
            }
        }
    }
}

/// Trying the offered methods one after the other.
#[derive(Debug)]
pub struct Tickets {
    sending: bool,
    options: Vec<i64>,
    at: usize,
    sent: Vec<i64>,
    last: String,
}

impl View for Tickets {
    type V = TicketsView;

    closed spec fn view(&self) -> TicketsView {
        TicketsView {
            sending: self.sending,
            options: self.options@,
            at: self.at as int,
            sent: self.sent@,
            last: self.last@,
        }
    }
}

impl Tickets {
    fn begin(sending: bool, options: Vec<i64>) -> (r: Self)
        ensures
            r@ == (TicketsView {
                sending,
                options: options@,
                at: next_method(options@, 0),
                sent: Seq::empty(),
                last: "no supported verification method"@,
            }),
            r@.wf(),
    {
        let at: usize = Self::seek(&options, 0);
        Tickets {
            sending,
            options,
            at,
            sent: Vec::new(),
            last: "no supported verification method".to_owned(),
        }
    }

    fn seek(options: &Vec<i64>, from: usize) -> (r: usize)
        requires
            from <= options@.len(),
        ensures
            r == next_method(options@, from as int),
            from <= r <= options@.len(),
            r < options@.len() ==> supported(options@[r as int]),
    {
        let mut i: usize = from;
        while i < options.len() && options[i] != 4 && options[i] != 8
            invariant
                from <= i <= options@.len(),
                next_method(options@, from as int) == next_method(options@, i as int),
            decreases options@.len() - i,
        {
            i += 1;
        }
        i
    }

    /// The endpoint to ask next, with the form to send to it; nothing when every
    /// method has been tried. A ticket is sent along when one is being verified.
    pub fn next(&self, ticket: &str) -> (r: Option<(&'static str, Vec<(String, String)>)>)
        requires
            self@.wf(),
        ensures
            r is Some <==> self@.at < self@.options.len(),
            r matches Some((api, form)) ==> api@ == self@.api() && pair_views(form@) == ticket_form(
                self@.sending,
                self@.options[self@.at] as int,
                ticket@,
            ),
    {
        if self.at >= self.options.len() {
            return None;
        }
        let flag: i64 = self.options[self.at];
        let mut form: Vec<(String, String)> = Vec::new();
        if self.sending {
            form.push(("retry".to_owned(), "false".to_owned()));
            form.push(("_json".to_owned(), "true".to_owned()));
        } else {
            form.push(("_flag".to_owned(), i64_text(flag)));
            form.push(("ticket".to_owned(), trim(ticket).to_owned()));
            form.push(("trust".to_owned(), "true".to_owned()));
            form.push(("_json".to_owned(), "true".to_owned()));
        }
        assert(pair_views(form@) =~= ticket_form(self@.sending, flag as int, ticket@));
        let api = if self.sending {
            if flag == 4 {
                "sendPhoneTicket"
            } else {
                "sendEmailTicket"
            }
        } else {
            if flag == 4 {
                "verifyPhone"
            } else {
                "verifyEmail"
            }
        };
        Some((api, form))
    }

    /// The endpoint replied with `text`, which parsed to this. A reply that does
    /// not parse ends the attempt. When a code is accepted, the result is where to
    /// go on, if the reply says so.
    pub fn on_reply(&mut self, text: &str, parsed: Result<VerifyTicketResponse, String>) -> (r: Result<
        Option<Accepted>,
        XiaoaiErr,
    >)
        requires
            old(self)@.wf(),
            old(self)@.at < old(self)@.options.len(),
        ensures
            final(self)@.wf(),
            match parsed {
                Err(e) => {
                    &&& r matches Err(err) && err@ == XiaoaiErrView::Auth(
                        old(self)@.api() + ": "@ + e@ + "; body: "@ + excerpt(text@),
                    )
                    &&& final(self)@ == old(self)@
                },
                Ok(resp) => {
                    &&& final(self)@ == old(self)@.after(resp)
                    &&& r matches Ok(accepted) && match accepted {
                        Some(a) => resp.code == Some(0i64) && opt_string(a.location)
                            == non_empty(opt_string(resp.location)),
                        None => resp.code != Some(0i64),
                    }
                },
            },
    {
        let flag: i64 = self.options[self.at];
        let api = if self.sending {
            if flag == 4 {
                "sendPhoneTicket"
            } else {
                "sendEmailTicket"
            }
        } else {
            if flag == 4 {
                "verifyPhone"
            } else {
                "verifyEmail"
            }
        };
        let resp = match parsed {
            Ok(resp) => resp,
            Err(e) => {
                let mut label = api.to_owned();
                label.append(": ");
                return Err(with_body(label.as_str(), e.as_str(), text));
            },
        };
        let n: usize = self.options.len();
        assert(self.at < n);
        let next: usize = Self::seek(&self.options, self.at + 1);
        let accepted: bool = match resp.code {
            Some(code) => code == 0,
            None => false,
        };
        if accepted {
            self.sent.push(flag);
            self.at = next;
            let location = match resp.location {
                Some(location) => if location.as_str().unicode_len() > 0 {
                    Some(location)
                } else {
                    None
                },
                None => None,
            };
            Ok(Some(Accepted { location }))
        } else {
            let mut last = api.to_owned();
            if self.sending {
                last.append(": ");
            } else {
                last.append(" rejected: ");
            }
            last.append(resp.show().as_str());
            self.last = last;
            self.at = next;
            Ok(None)
        }
    }

    /// What sending codes came to: the methods a code was sent by, or the reason
    /// that none was.
    pub fn sent(self) -> (r: Result<Vec<i64>, XiaoaiErr>)
        ensures
            match r {
                Ok(flags) => flags@ == self@.sent && flags@.len() > 0,
                Err(e) => self@.sent.len() == 0 && e@ == XiaoaiErrView::Auth(self@.last),
            },
    {
        if self.sent.len() == 0 {
            Err(XiaoaiErr::Auth(self.last))
        } else {
            Ok(self.sent)
        }
    }

    /// What is reported when no method accepted the code.
    pub fn rejected(self) -> (r: XiaoaiErr)
        ensures
            r@ == XiaoaiErrView::Auth("verification failed: "@ + self@.last),
    {
        let mut message = "verification failed: ".to_owned();
        message.append(self.last.as_str());
        XiaoaiErr::Auth(message)
    }
}

/// A code was accepted; the login goes on at this location, if one is given.
#[derive(Debug, Clone, PartialEq, Eq)]
pub struct Accepted {
    pub location: Option<String>,
}

/// A text that is there and not empty.
pub open spec fn non_empty(text: Option<Seq<char>>) -> Option<Seq<char>> {
    match text {
        Some(s) => if s.len() > 0 {
            Some(s)
        } else {
            None
        },
        None => None,
    }
}

/// What a list of pairs of texts says.
pub open spec fn pair_views(pairs: Seq<(String, String)>) -> Seq<(Seq<char>, Seq<char>)> {
    pairs.map_values(|p: (String, String)| (p.0@, p.1@))
}

/// The form that asks for a code, or submits one.
pub open spec fn ticket_form(sending: bool, flag: int, ticket: Seq<char>) -> Seq<
    (Seq<char>, Seq<char>),
> {
    if sending {
        seq![("retry"@, "false"@), ("_json"@, "true"@)]
    } else {
        seq![
            ("_flag"@, dec_int(flag)),
            ("ticket"@, trimmed(ticket)),
            ("trust"@, "true"@),
            ("_json"@, "true"@),
        ]
    }
}

/// The path of a URL, when it is one.
pub uninterp spec fn url_path(url: Seq<char>) -> Option<Seq<char>>;

/// The query parameters of a URL, decoded.
pub uninterp spec fn url_query(url: Seq<char>) -> Seq<(Seq<char>, Seq<char>)>;

/// `reqwest::Url::parse` and `path`: the path of `url`, or `None` when it does not
/// parse. The text alone decides.
#[verifier::external_body]
fn path_of(url: &str) -> (r: Option<String>)
    ensures
        opt_string(r) == url_path(url@),
{
    reqwest::Url::parse(url).ok().map(|u| u.path().to_owned())
}

/// `reqwest::Url::parse` and `query_pairs`: the parameters of `url` in order, none
/// when it does not parse. The text alone decides.
#[verifier::external_body]
fn query_of(url: &str) -> (r: Vec<(String, String)>)
    ensures
        pair_views(r@) == url_query(url@),
{
    match reqwest::Url::parse(url) {
        Ok(u) => u.query_pairs().map(|(k, v)| (k.into_owned(), v.into_owned())).collect(),
        Err(_) => Vec::new(),
    }
}

/// The value of the first parameter called `name`, at or after `from`.
pub open spec fn param_named(
    params: Seq<(Seq<char>, Seq<char>)>,
    name: Seq<char>,
    from: int,
) -> Option<Seq<char>>
    decreases params.len() - from,
{
    if from < 0 || from >= params.len() {
        None
    } else if params[from].0 == name {
        Some(params[from].1)
    } else {
        param_named(params, name, from + 1)
    }
}

/// Where an interstitial page, with this path and these parameters, leads on to.
pub open spec fn onward(path: Option<Seq<char>>, params: Seq<(Seq<char>, Seq<char>)>) -> Option<
    Seq<char>,
> {
    match path {
        Some(p) => if "/fe/service/"@.is_prefix_of(p) {
            match param_named(params, "skipUrl"@, 0) {
                Some(skip) => Some(absolute(skip)),
                None => None,
            }
        } else {
            None
        },
        None => None,
    }
}

/// Where an interstitial page leads on to.
pub fn skip_url(path: Option<&str>, params: &Vec<(String, String)>) -> (r: Option<String>)
    ensures
        opt_string(r) == onward(opt_view(path), pair_views(params@)),
{
    match path {
        Some(p) => if !starts_with(p, "/fe/service/") {
            return None;
        },
        None => {
            return None;
        },
    }
    let ghost all = pair_views(params@);
    let mut i: usize = 0;
    while i < params.len()
        invariant
            i <= params@.len(),
            all == pair_views(params@),
            path matches Some(p) && "/fe/service/"@.is_prefix_of(p@),
            param_named(all, "skipUrl"@, 0) == param_named(all, "skipUrl"@, i as int),
        decreases params@.len() - i,
    {
        assert(all[i as int] == (params@[i as int].0@, params@[i as int].1@));
        if same(params[i].0.as_str(), "skipUrl") {
            return Some(absolute_url(params[i].1.as_str()));
        }
        i += 1;
    }
    None
}

/// The redirects behind an accepted code, which end where the `passToken` is
/// issued. A page in between is skipped, but no more than five times.
#[derive(Debug)]
pub struct Hops {
    left: u8,
}

impl View for Hops {
    type V = nat;

    /// How many pages may still be skipped.
    closed spec fn view(&self) -> nat {
        self.left as nat
    }
}

impl Hops {
    /// The URL to get first, and the pages that may be skipped after it.
    pub fn follow_verified_location(location: &str) -> (r: (String, Hops))
        ensures
            r.0@ == absolute(location@),
            r.1@ == 5,
    {
        (absolute_url(location), Hops { left: 5 })
    }

    /// The URL to get after having arrived at `url`, if any.
    pub fn next(&mut self, url: &str) -> (r: Option<String>)
        ensures
            opt_string(r) == if old(self)@ == 0 {
                None::<Seq<char>>
            } else {
                onward(url_path(url@), url_query(url@))
            },
            final(self)@ == if r is Some {
                (old(self)@ - 1) as nat
            } else {
                old(self)@
            },
    {
        if self.left == 0 {
            return None;
        }
        let path = path_of(url);
        let params = query_of(url);
        let next = match &path {
            Some(p) => skip_url(Some(p.as_str()), &params),
            None => None,
        };
        match next {
            Some(skip) => {
                self.left = self.left - 1;
                Some(skip)
            },
            None => None,
        }
    }
}

/// The methods among `options` whose reply is success.
pub open spec fn succeeding(
    options: Seq<i64>,
    replies: spec_fn(i64) -> VerifyTicketResponse,
    from: int,
) -> Seq<i64>
    decreases options.len() - from,
{
    if from < 0 || from >= options.len() {
        Seq::empty()
    } else if supported(options[from]) && replies(options[from]).code == Some(0i64) {
        seq![options[from]] + succeeding(options, replies, from + 1)
    } else {
        succeeding(options, replies, from + 1)
    }
}

/// Everything tried, when the methods reply with `replies`.
pub open spec fn all_tried(
    tickets: TicketsView,
    replies: spec_fn(i64) -> VerifyTicketResponse,
) -> TicketsView
    decreases tickets.options.len() - tickets.at,
{
    if !tickets.wf() || tickets.at >= tickets.options.len() {
        tickets
    } else {
        let next = tickets.after(replies(tickets.options[tickets.at]));
        if tickets.at < next.at <= tickets.options.len() {
            all_tried(next, replies)
        } else {
            next
        }
    }
}

proof fn next_method_bounds(options: Seq<i64>, from: int)
    requires
        0 <= from <= options.len(),
    ensures
        from <= next_method(options, from) <= options.len(),
        next_method(options, from) < options.len() ==> supported(
            options[next_method(options, from)],
        ),
    decreases options.len() - from,
{
    if from < options.len() && !supported(options[from]) {
        next_method_bounds(options, from + 1);
    }
}

proof fn unsupported_do_not_succeed(
    options: Seq<i64>,
    replies: spec_fn(i64) -> VerifyTicketResponse,
    from: int,
)
    requires
        0 <= from <= options.len(),
    ensures
        succeeding(options, replies, from) == succeeding(
            options,
            replies,
            next_method(options, from),
        ),
    decreases options.len() - from,
{
    if from < options.len() && !supported(options[from]) {
        unsupported_do_not_succeed(options, replies, from + 1);
    }
}

/// Every supported method gets its turn: a code counts as sent by exactly the
/// methods that replied with success, in the order in which they were offered.
pub proof fn a_code_is_sent_by_every_method_that_works(
    tickets: TicketsView,
    replies: spec_fn(i64) -> VerifyTicketResponse,
)
    requires
        tickets.wf(),
    ensures
        all_tried(tickets, replies).sent == tickets.sent + succeeding(
            tickets.options,
            replies,
            tickets.at,
        ),
    decreases tickets.options.len() - tickets.at,
{
    let options = tickets.options;
    if tickets.at < options.len() {
        next_method_bounds(options, tickets.at + 1);
        unsupported_do_not_succeed(options, replies, tickets.at + 1);
        let next = tickets.after(replies(options[tickets.at]));
        a_code_is_sent_by_every_method_that_works(next, replies);
        assert(all_tried(tickets, replies).sent =~= tickets.sent + succeeding(
            options,
            replies,
            tickets.at,
        ));
    } else {
        assert(tickets.sent + Seq::<i64>::empty() =~= tickets.sent);
    }
}

/// The list of methods is asked for where the verification starts: the address is the
/// same but for the name of what is asked, with the site's own prefix before it or not.
pub proof fn the_list_is_asked_for_at_the_same_place(before: Seq<char>, behind: Seq<char>)
    ensures
        ({
            let p = "fe/service/identity/authStart"@;
            find_text(before + p, p, 0) == Some(before.len() as int) && !contains(behind, p)
                ==> list_url_of(before + p + behind) == before + "identity/list"@ + behind
        }),
        ({
            let p = "identity/authStart"@;
            find_text(before + p, p, 0) == Some(before.len() as int) && !contains(behind, p)
                && !contains(before + p + behind, "fe/service/identity/authStart"@) ==> list_url_of(
                before + p + behind,
            ) == before + "identity/list"@ + behind
        }),
{
    reveal_strlit("fe/service/identity/authStart");
    reveal_strlit("identity/authStart");
    let by = "identity/list"@;
    let long = "fe/service/identity/authStart"@;
    let short = "identity/authStart"@;
    if find_text(before + long, long, 0) == Some(before.len() as int) && !contains(behind, long) {
        what_is_put_in_is_contained(before, long, behind);
        replacing_replaces_the_pattern_alone(before, long, by, behind);
        replacing_nothing_changes_nothing(behind, long, by);
    }
    if find_text(before + short, short, 0) == Some(before.len() as int) && !contains(behind, short) {
        replacing_replaces_the_pattern_alone(before, short, by, behind);
        replacing_nothing_changes_nothing(behind, short, by);
    }
}

/// A cookie in a header is found under its name: the first part that is the name, `=` and
/// a value gives the value, and nothing is found only where no part is of that form.
pub proof fn the_first_header_cookie_of_a_name_counts(parts: Seq<Seq<char>>, name: Seq<char>)
    ensures
        match header_cookie(parts, name, 0) {
            Some(value) => exists|i: int|
                0 <= i < parts.len() && #[trigger] parts[i] == name + seq!['='] + value && forall|
                    j: int,
                |
                    0 <= j < i ==> !(name + seq!['=']).is_prefix_of(#[trigger] parts[j]),
            None => forall|i: int|
                0 <= i < parts.len() ==> !(name + seq!['=']).is_prefix_of(#[trigger] parts[i]),
        },
{
    first_header_cookie(parts, name, 0);
}

proof fn first_header_cookie(parts: Seq<Seq<char>>, name: Seq<char>, from: int)
    requires
        0 <= from <= parts.len(),
    ensures
        match header_cookie(parts, name, from) {
            Some(value) => exists|i: int|
                from <= i < parts.len() && #[trigger] parts[i] == name + seq!['='] + value
                    && forall|j: int|
                    from <= j < i ==> !(name + seq!['=']).is_prefix_of(#[trigger] parts[j]),
            None => forall|i: int|
                from <= i < parts.len() ==> !(name + seq!['=']).is_prefix_of(#[trigger] parts[i]),
        },
    decreases parts.len() - from,
{
    reveal_strlit("=");
    assert("="@ =~= seq!['=']);
    let start = name + seq!['='];
    if from < parts.len() {
        if start.is_prefix_of(parts[from]) {
            let value = parts[from].skip(start.len() as int);
            assert(parts[from] =~= start + value);
        } else {
            first_header_cookie(parts, name, from + 1);
            if let Some(value) = header_cookie(parts, name, from + 1) {
                let i = choose|i: int|
                    from + 1 <= i < parts.len() && #[trigger] parts[i] == name + seq!['='] + value
                        && forall|j: int|
                        from + 1 <= j < i ==> !(name + seq!['=']).is_prefix_of(#[trigger] parts[j]);
                assert(parts[i] == name + seq!['='] + value);
            }
        }
    }
}

/// A jar holds a cookie where one of the parts of its header, between `; `, is the name,
/// `=` and a value; the first such part counts. No header, no cookie.
pub proof fn a_jar_is_read_part_by_part(header: Seq<char>, name: Seq<char>)
    ensures
        jar_cookie(None, name) is None,
        exists|parts: Seq<Seq<char>>|
            {
                &&& joined(parts, "; "@) == header
                &&& forall|i: int| 0 <= i < parts.len() ==> !contains(#[trigger] parts[i], "; "@)
                &&& jar_cookie(Some(header), name) == #[trigger] header_cookie(parts, name, 0)
            },
{
    reveal_strlit("; ");
    let parts = pieces(header, "; "@);
    splitting_loses_nothing(header, "; "@);
    assert(jar_cookie(Some(header), name) == header_cookie(parts, name, 0));
}

/// The methods offered are the ones listed, in their order; where none is listed, the one
/// that is flagged; where nothing is said, the phone.
pub proof fn the_methods_listed_are_offered(parsed: IdentityListResponse)
    ensures
        match parsed.options {
            Some(options) => options@.len() > 0 ==> offered(Some(parsed)) == options@,
            None => true,
        },
        (parsed.options matches Some(options) ==> options@.len() == 0) ==> match parsed.flag {
            Some(flag) => offered(Some(parsed)) == seq![flag],
            None => offered(Some(parsed)) == seq![4i64],
        },
        offered(None) == seq![4i64],
        offered(Some(parsed)).len() > 0,
{
}

/// A reply completes a login exactly where it holds a user, a location, a security token
/// and a nonce, and the grant is made of those and of the pass token where there is one.
pub proof fn a_complete_reply_grants_what_it_holds(
    user_id: Option<i64>,
    location: Option<Seq<char>>,
    ssecurity: Option<Seq<char>>,
    nonce: Option<i64>,
    pass_token: Option<Seq<char>>,
)
    ensures
        match complete(user_id, location, ssecurity, nonce, pass_token) {
            Some(grant) => {
                &&& user_id matches Some(id) && grant.user_id == id
                &&& location == Some(grant.location)
                &&& ssecurity == Some(grant.ssecurity)
                &&& nonce matches Some(n) && grant.nonce == n
                &&& grant.pass_token == pass_token
            },
            None => user_id is None || location is None || ssecurity is None || nonce is None,
        },
{
}

/// Each of the four endpoints is for one thing: sending or verifying, by phone or by
/// email, and it says which. Only the two methods that have endpoints are supported.
pub proof fn each_endpoint_is_for_one_thing(sending: bool, flag: i64)
    requires
        supported(flag),
    ensures
        flag == 4 || flag == 8,
        "send"@.is_prefix_of(endpoint(sending, flag)) <==> sending,
        "verify"@.is_prefix_of(endpoint(sending, flag)) <==> !sending,
        contains(endpoint(sending, flag), "Phone"@) <==> flag == 4,
        contains(endpoint(sending, flag), "Email"@) <==> flag == 8,
{
    reveal_strlit("send");
    reveal_strlit("verify");
    reveal_strlit("Phone");
    reveal_strlit("Email");
    reveal_strlit("sendPhoneTicket");
    reveal_strlit("sendEmailTicket");
    reveal_strlit("verifyPhone");
    reveal_strlit("verifyEmail");
    let name = endpoint(sending, flag);
    let word = if flag == 4 {
        "Phone"@
    } else {
        "Email"@
    };
    let other = if flag == 4 {
        "Email"@
    } else {
        "Phone"@
    };
    let at: int = if sending {
        4
    } else {
        6
    };
    assert(name.subrange(at, at + 5) =~= word);
    assert(occurs_at(name, word, at));
    if contains(name, other) {
        let k = choose|k: int| occurs_at(name, other, k);
        assert(name.subrange(k, k + 5)[0] == other[0]);
        assert(name[k] == other[0]);
        assert(false);
    }
    assert(name[0] == if sending {
        's'
    } else {
        'v'
    });
    if sending {
        assert("send"@ =~= name.take(4));
        if "verify"@.is_prefix_of(name) {
            assert(name[0] == "verify"@[0]);
        }
    } else {
        assert("verify"@ =~= name.take(6));
        if "send"@.is_prefix_of(name) {
            assert(name[0] == "send"@[0]);
        }
    }
}

/// The next method tried is the first supported one from there on; where there is none,
/// the end is reached.
pub proof fn the_next_method_is_the_first_supported(options: Seq<i64>, from: int)
    requires
        0 <= from <= options.len(),
    ensures
        from <= next_method(options, from) <= options.len(),
        forall|i: int| from <= i < next_method(options, from) ==> !supported(#[trigger] options[i]),
        next_method(options, from) < options.len() ==> supported(
            options[next_method(options, from)],
        ),
    decreases options.len() - from,
{
    if from < options.len() && !supported(options[from]) {
        the_next_method_is_the_first_supported(options, from + 1);
    }
}

/// A method counts as one that worked exactly where the server answered with code zero.
/// Where it did not, what it answered is kept, under the name of what was asked. Either
/// way the next supported method is up, and what was to be tried stays what it was.
pub proof fn a_method_worked_where_the_code_is_zero(
    tickets: TicketsView,
    resp: VerifyTicketResponse,
)
    requires
        tickets.wf(),
        tickets.at < tickets.options.len(),
    ensures
        ({
            let now = tickets.after(resp);
            &&& now.sending == tickets.sending
            &&& now.options == tickets.options
            &&& tickets.at < now.at
            &&& forall|i: int|
                tickets.at < i < now.at ==> !supported(#[trigger] tickets.options[i])
            &&& resp.code == Some(0i64) ==> now.last == tickets.last && now.sent
                == tickets.sent.push(tickets.options[tickets.at])
            &&& resp.code != Some(0i64) ==> now.sent == tickets.sent && endpoint(
                tickets.sending,
                tickets.options[tickets.at],
            ).is_prefix_of(now.last) && contains(now.last, optional_number(resp.code))
        }),
{
    let now = tickets.after(resp);
    the_next_method_is_the_first_supported(tickets.options, tickets.at + 1);
    if resp.code != Some(0i64) {
        let api = tickets.api();
        let between = if tickets.sending {
            ": "@
        } else {
            " rejected: "@
        };
        let code = optional_number(resp.code);
        let desc = optional_quoted(either(opt_string(resp.desc), opt_string(resp.description)));
        assert(api =~= now.last.take(api.len() as int));
        what_is_put_in_is_contained(api + between + "code="@, code, ", desc="@ + desc);
        assert(now.last =~= api + between + "code="@ + code + (", desc="@ + desc));
    }
}

/// A reply is shown with its code and what the server had to say.
pub proof fn a_reply_is_shown_with_code_and_words(resp: VerifyTicketResponse)
    ensures
        contains(resp.shown(), optional_number(resp.code)),
        match resp.desc {
            Some(text) => optional_quoted(Some(text@)).is_suffix_of(resp.shown()),
            None => optional_quoted(opt_string(resp.description)).is_suffix_of(resp.shown()),
        },
{
    let code = optional_number(resp.code);
    let desc = optional_quoted(either(opt_string(resp.desc), opt_string(resp.description)));
    what_is_put_in_is_contained("code="@, code, ", desc="@ + desc);
    assert(resp.shown() =~= "code="@ + code + (", desc="@ + desc));
    assert(desc =~= resp.shown().skip(resp.shown().len() - desc.len()));
}

/// An empty text counts as none.
pub proof fn an_empty_text_counts_as_none(text: Seq<char>)
    ensures
        non_empty(Some(text)) == if text.len() > 0 {
            Some(text)
        } else {
            None
        },
        non_empty(None) is None,
{
}

/// Verifying sends the code that was entered, without the white space around it, and the
/// number of the method it came by; asking for a code sends neither.
pub proof fn the_code_entered_is_the_code_sent(flag: i64, ticket: Seq<char>)
    ensures
        ({
            let form = ticket_form(false, flag as int, ticket);
            &&& param_named(form, "ticket"@, 0) == Some(trimmed(ticket))
            &&& param_named(form, "_flag"@, 0) matches Some(text) && parsed_i64(text) == Some(
                flag as int,
            )
            &&& param_named(form, "trust"@, 0) == Some("true"@)
            &&& param_named(form, "_json"@, 0) == Some("true"@)
        }),
        ({
            let form = ticket_form(true, flag as int, ticket);
            &&& param_named(form, "ticket"@, 0) is None
            &&& param_named(form, "_flag"@, 0) is None
            &&& param_named(form, "retry"@, 0) == Some("false"@)
            &&& param_named(form, "_json"@, 0) == Some("true"@)
        }),
{
    reveal_strlit("ticket");
    reveal_strlit("_flag");
    reveal_strlit("trust");
    reveal_strlit("_json");
    reveal_strlit("retry");
    reveal_with_fuel(param_named, 6);
    assert("ticket"@.len() == 6 && "_flag"@.len() == 5 && "trust"@.len() == 5);
    assert("_json"@.len() == 5 && "retry"@.len() == 5);
    assert("_flag"@[1] != "_json"@[1] && "_flag"@[0] != "trust"@[0] && "_flag"@[0] != "retry"@[0]);
    assert("_json"@[0] != "trust"@[0] && "_json"@[0] != "retry"@[0]);
    written_signed_number_reads_back(flag);
}

/// Of parameters with one name the first counts, and a name that none has is not found.
pub proof fn the_first_parameter_of_a_name_counts(
    params: Seq<(Seq<char>, Seq<char>)>,
    name: Seq<char>,
    from: int,
)
    requires
        0 <= from <= params.len(),
    ensures
        match param_named(params, name, from) {
            Some(value) => exists|i: int|
                from <= i < params.len() && #[trigger] params[i] == (name, value) && forall|j: int|
                    from <= j < i ==> (#[trigger] params[j]).0 != name,
            None => forall|i: int| from <= i < params.len() ==> (#[trigger] params[i]).0 != name,
        },
    decreases params.len() - from,
{
    if from < params.len() {
        if params[from].0 == name {
            assert(params[from] == (name, params[from].1));
        } else {
            the_first_parameter_of_a_name_counts(params, name, from + 1);
            if let Some(value) = param_named(params, name, from + 1) {
                let i = choose|i: int|
                    from + 1 <= i < params.len() && #[trigger] params[i] == (name, value)
                        && forall|j: int| from + 1 <= j < i ==> (#[trigger] params[j]).0 != name;
                assert(params[i] == (name, value));
            }
        }
    }
}

/// From one of the site's own pages the way leads on to where its `skipUrl` points, made
/// absolute; from any other page, or without it, it leads no further.
pub proof fn only_a_site_page_leads_on(
    path: Seq<char>,
    params: Seq<(Seq<char>, Seq<char>)>,
    skip: Seq<char>,
)
    ensures
        onward(None, params) is None,
        !"/fe/service/"@.is_prefix_of(path) ==> onward(Some(path), params) is None,
        param_named(params, "skipUrl"@, 0) is None ==> onward(Some(path), params) is None,
        "/fe/service/"@.is_prefix_of(path) && param_named(params, "skipUrl"@, 0) == Some(skip)
            ==> onward(Some(path), params) == Some(absolute(skip)),
{
}

} // verus!
