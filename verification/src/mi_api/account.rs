//! The two requests of a plain login, and what their replies come to.

use crate::digest::{hex_text, md5_digest, upper_cased};
use crate::json::opt_string;
use crate::text::{contains, occurs_at};
use crate::xiaoai::account::{
    add_param, client_sign, cookie_named, find_cookie, password_hash, signature, url_outcome,
    url_with_param, LoginPayload2,
};
use vstd::prelude::*;
use vstd::utf8::encode_utf8;

verus! {

/// A finished login.
#[derive(Debug, Clone, PartialEq, Eq)]
pub struct AuthData {
    pub user_id: i64,
    pub divice_id: String,
    pub ssecurity: String,
    pub service_token: String,
}

/// What is traded for a `serviceToken`.
#[derive(Debug, Clone, PartialEq, Eq)]
pub struct Exchange {
    pub location: String,
    pub nonce: i64,
    pub ssecurity: String,
}

/// What an [`Exchange`] says.
pub struct ExchangeView {
    pub location: Seq<char>,
    pub nonce: int,
    pub ssecurity: Seq<char>,
}

impl View for Exchange {
    type V = ExchangeView;

    open spec fn view(&self) -> ExchangeView {
        ExchangeView {
            location: self.location@,
            nonce: self.nonce as int,
            ssecurity: self.ssecurity@,
        }
    }
}

impl Exchange {
    /// The URL whose reply sets the token as a cookie.
    pub fn url(&self) -> (r: Result<String, String>)
        ensures
            url_outcome(r) == url_with_param(
                self@.location,
                "clientSign"@,
                signature(self@.nonce, self@.ssecurity),
            ),
    {
        let sign = client_sign(self.nonce, self.ssecurity.as_str());
        add_param(self.location.as_str(), "clientSign", sign.as_str())
    }

    /// The login that the reply's cookies complete, if they hold the token.
    pub fn complete(
        &self,
        cookies: &Vec<(String, String)>,
        user_id: i64,
        device_id: &str,
    ) -> (r: Option<AuthData>)
        ensures
            match r {
                Some(auth) => {
                    &&& cookie_named(cookies@, "serviceToken"@, 0) == Some(auth.service_token@)
                    &&& auth.user_id == user_id
                    &&& auth.divice_id@ == device_id@
                    &&& auth.ssecurity@ == self@.ssecurity
                },
                None => cookie_named(cookies@, "serviceToken"@, 0) is None,
            },
    {
        match find_cookie(cookies, "serviceToken") {
            Some(service_token) => Some(
                AuthData {
                    user_id,
                    divice_id: device_id.to_owned(),
                    ssecurity: self.ssecurity.clone(),
                    service_token,
                },
            ),
            None => None,
        }
    }
}

/// The first reply.
#[derive(Debug, Clone)]
pub struct LoginResponse {
    pub user_id: Option<i64>,
    pub pass_token: Option<String>,
    pub location: Option<String>,
    pub nonce: Option<i64>,
    pub ssecurity: Option<String>,
    pub payload2: Option<LoginPayload2>,
}

/// What is traded, or what the reply lacks.
pub open spec fn traded(resp: LoginResponse) -> Result<ExchangeView, Seq<char>> {
    match (opt_string(resp.location), resp.nonce, opt_string(resp.ssecurity)) {
        (None, _, _) => Err("location not found in resp"@),
        (_, None, _) => Err("\n                nonce not found in resp"@),
        (_, _, None) => Err("ssecurity not found in resp"@),
        (Some(location), Some(nonce), Some(ssecurity)) => Ok(
            ExchangeView { location, nonce: nonce as int, ssecurity },
        ),
    }
}

impl LoginResponse {
    /// What to trade for the token, or what the reply lacks.
    pub fn service_token(&self) -> (r: Result<Exchange, String>)
        ensures
            match r {
                Ok(exchange) => traded(*self) == Ok::<ExchangeView, Seq<char>>(exchange@),
                Err(e) => traded(*self) == Err::<ExchangeView, Seq<char>>(e@),
            },
    {
        let location = match &self.location {
            Some(location) => location.clone(),
            None => {
                return Err("location not found in resp".to_owned());
            },
        };
        let nonce: i64 = match self.nonce {
            Some(nonce) => nonce,
            None => {
                return Err("\n                nonce not found in resp".to_owned());
            },
        };
        let ssecurity = match &self.ssecurity {
            Some(ssecurity) => ssecurity.clone(),
            None => {
                return Err("ssecurity not found in resp".to_owned());
            },
        };
        Ok(Exchange { location, nonce, ssecurity })
    }
}

/// The second reply.
#[derive(Debug, Clone)]
pub struct LoginResponse2 {
    pub user_id: i64,
    pub pass_token: String,
    pub location: String,
    pub nonce: i64,
    pub ssecurity: String,
}

impl LoginResponse2 {
    /// What to trade for the token.
    pub fn service_token(&self) -> (r: Exchange)
        ensures
            r@ == (ExchangeView {
                location: self.location@,
                nonce: self.nonce as int,
                ssecurity: self.ssecurity@,
            }),
    {
        Exchange {
            location: self.location.clone(),
            nonce: self.nonce,
            ssecurity: self.ssecurity.clone(),
        }
    }
}

/// What a login does after the first reply.
#[derive(Debug)]
pub enum Next {
    /// The session is known: trade this for the token.
    Trade(Exchange),
    /// Send the password.
    Password(LoginPayload2),
    /// The reply cannot be used, for this reason.
    Stuck(String),
}

/// What a login does after the first reply.
pub fn login(resp: LoginResponse, user: &str, password: &str) -> (r: Next)
    ensures
        match resp.user_id {
            Some(_) => match traded(resp) {
                Ok(exchange) => r matches Next::Trade(e) && e@ == exchange,
                Err(why) => r matches Next::Stuck(e) && e@ == why,
            },
            None => match resp.payload2 {
                Some(payload) => r matches Next::Password(sent) && sent@ == payload@.signed(
                    user@,
                    upper_cased(hex_text(md5_digest(encode_utf8(password@)))),
                ),
                None => r matches Next::Stuck(e) && e@ == "payload2 not found in resp"@,
            },
        },
        r matches Next::Password(sent) ==> (resp.payload2 matches Some(payload) && sent.json
            && sent.qs@ == payload.qs@ && sent.sid@ == payload.sid@ && sent.sign@
            == payload.sign@ && sent.callback@ == payload.callback@ && sent.user@ == user@
            && sent.hash@ == upper_cased(hex_text(md5_digest(encode_utf8(password@))))),
{
    match resp.user_id {
        Some(_) => match resp.service_token() {
            Ok(exchange) => Next::Trade(exchange),
            Err(e) => Next::Stuck(e),
        },
        None => match resp.payload2 {
            Some(payload) => Next::Password(
                payload.signed(user, password_hash(password).as_str()),
            ),
            None => Next::Stuck("payload2 not found in resp".to_owned()),
        },
    }
}

/// A reply is traded exactly where it holds a location, a nonce and a security token, and
/// for those as they are.
pub proof fn a_reply_is_traded_for_what_it_holds(resp: LoginResponse)
    ensures
        match traded(resp) {
            Ok(exchange) => {
                &&& resp.location matches Some(location) && exchange.location == location@
                &&& resp.nonce matches Some(nonce) && exchange.nonce == nonce
                &&& resp.ssecurity matches Some(ssecurity) && exchange.ssecurity == ssecurity@
            },
            Err(why) => {
                ||| resp.location is None && contains(why, "location"@)
                ||| resp.location is Some && resp.nonce is None && contains(why, "nonce"@)
                ||| resp.location is Some && resp.nonce is Some && resp.ssecurity is None
                    && contains(why, "ssecurity"@)
            },
        },
{
    reveal_strlit("location not found in resp");
    reveal_strlit("location");
    reveal_strlit("\n                nonce not found in resp");
    reveal_strlit("nonce");
    reveal_strlit("ssecurity not found in resp");
    reveal_strlit("ssecurity");
    let a = "location not found in resp"@;
    let b = "\n                nonce not found in resp"@;
    let c = "ssecurity not found in resp"@;
    assert(a.subrange(0, 8) =~= "location"@);
    assert(occurs_at(a, "location"@, 0));
    assert(b.subrange(17, 22) =~= "nonce"@);
    assert(occurs_at(b, "nonce"@, 17));
    assert(c.subrange(0, 9) =~= "ssecurity"@);
    assert(occurs_at(c, "ssecurity"@, 0));
}

/// What is said of an exchange is what it holds.
pub proof fn an_exchange_shows_its_fields(exchange: Exchange)
    ensures
        exchange@.location == exchange.location@,
        exchange@.nonce == exchange.nonce,
        exchange@.ssecurity == exchange.ssecurity@,
{
}

} // verus!
