//! What can go wrong talking to NetEase.

use crate::brain::error::labelled;
use crate::decimal::{dec, dec_int, i64_text, u64_text};
use crate::json::opt_string;
use crate::text::{contains, what_is_put_in_is_contained};
use vstd::prelude::*;

verus! {

/// Anything that can go wrong talking to NetEase.
#[derive(Debug, Clone, PartialEq, Eq)]
pub enum NeteaseErr {
    /// The request never completed.
    Http(String),
    /// A response arrived but was not the expected JSON.
    Decode(String),
    /// A `code` other than 200 in the JSON envelope, whatever the HTTP status.
    Api { code: i64, message: Option<String> },
    /// The request was malformed before it was sent.
    BadRequest(String),
    /// Reading or writing the cached session failed; whether because there is no
    /// such file.
    Io { not_found: bool, message: String },
    /// An audio URL was refused, almost always because it expired.
    UrlExpired { status: u16, url: String },
}

/// What a [`NeteaseErr`] says.
pub enum NeteaseErrView {
    Http(Seq<char>),
    Decode(Seq<char>),
    Api { code: int, message: Option<Seq<char>> },
    BadRequest(Seq<char>),
    Io { not_found: bool, message: Seq<char> },
    UrlExpired { status: int, url: Seq<char> },
}

impl View for NeteaseErr {
    type V = NeteaseErrView;

    open spec fn view(&self) -> NeteaseErrView {
        match *self {
            NeteaseErr::Http(m) => NeteaseErrView::Http(m@),
            NeteaseErr::Decode(m) => NeteaseErrView::Decode(m@),
            NeteaseErr::Api { code, message } => NeteaseErrView::Api {
                code: code as int,
                message: opt_string(message),
            },
            NeteaseErr::BadRequest(m) => NeteaseErrView::BadRequest(m@),
            NeteaseErr::Io { not_found, message } => NeteaseErrView::Io {
                not_found,
                message: message@,
            },
            NeteaseErr::UrlExpired { status, url } => NeteaseErrView::UrlExpired {
                status: status as int,
                url: url@,
            },
        }
    }
}

impl NeteaseErrView {
    /// The error in words.
    pub open spec fn message(self) -> Seq<char> {
        match self {
            NeteaseErrView::Http(m) => "http request failed: "@ + m,
            NeteaseErrView::Decode(m) => "could not decode response: "@ + m,
            NeteaseErrView::Api { code, message } => match message {
                Some(m) => "netease returned code "@ + dec_int(code) + ": "@ + m,
                None => "netease returned code "@ + dec_int(code),
            },
            NeteaseErrView::BadRequest(m) => "bad request: "@ + m,
            NeteaseErrView::Io { not_found, message } => "session io failed: "@ + message,
            NeteaseErrView::UrlExpired { status, url } => "cdn refused audio url with "@ + dec(
                status as nat,
            )
                + " (most likely expired — netease urls live ~20 min, resolve just before playing): "@
                + url,
        }
    }
}

impl NeteaseErr {
    /// The error in words.
    pub fn message(&self) -> (r: String)
        ensures
            r@ == self@.message(),
    {
        match self {
            NeteaseErr::Http(m) => labelled("http request failed: ", m.as_str()),
            NeteaseErr::Decode(m) => labelled("could not decode response: ", m.as_str()),
            NeteaseErr::Api { code, message } => {
                let mut out = "netease returned code ".to_owned();
                out.append(i64_text(*code).as_str());
                match message {
                    Some(m) => {
                        out.append(": ");
                        out.append(m.as_str());
                    },
                    None => {},
                }
                out
            },
            NeteaseErr::BadRequest(m) => labelled("bad request: ", m.as_str()),
            NeteaseErr::Io { message, .. } => labelled("session io failed: ", message.as_str()),
            NeteaseErr::UrlExpired { status, url } => {
                let mut out = "cdn refused audio url with ".to_owned();
                out.append(u64_text(*status as u64).as_str());
                out.append(
                    " (most likely expired — netease urls live ~20 min, resolve just before playing): ",
                );
                out.append(url.as_str());
                out
            },
        }
    }
}

/// Every error says why: its message ends with the reason it was made with, and an error
/// code and an address that was refused are named.
pub proof fn an_error_names_its_reason(
    reason: Seq<char>,
    code: i64,
    status: u16,
    not_found: bool,
)
    ensures
        reason.is_suffix_of(NeteaseErrView::Http(reason).message()),
        reason.is_suffix_of(NeteaseErrView::Decode(reason).message()),
        reason.is_suffix_of(NeteaseErrView::BadRequest(reason).message()),
        reason.is_suffix_of(NeteaseErrView::Io { not_found, message: reason }.message()),
        reason.is_suffix_of(
            NeteaseErrView::Api { code: code as int, message: Some(reason) }.message(),
        ),
        contains(
            NeteaseErrView::Api { code: code as int, message: Some(reason) }.message(),
            dec_int(code as int),
        ),
        dec_int(code as int).is_suffix_of(
            NeteaseErrView::Api { code: code as int, message: None }.message(),
        ),
        reason.is_suffix_of(
            NeteaseErrView::UrlExpired { status: status as int, url: reason }.message(),
        ),
        contains(
            NeteaseErrView::UrlExpired { status: status as int, url: reason }.message(),
            dec(status as nat),
        ),
{
    ends_with(NeteaseErrView::Http(reason).message(), reason);
    ends_with(NeteaseErrView::Decode(reason).message(), reason);
    ends_with(NeteaseErrView::BadRequest(reason).message(), reason);
    ends_with(NeteaseErrView::Io { not_found, message: reason }.message(), reason);
    let api = NeteaseErrView::Api { code: code as int, message: Some(reason) }.message();
    ends_with(api, reason);
    what_is_put_in_is_contained(
        "netease returned code "@,
        dec_int(code as int),
        ": "@ + reason,
    );
    assert(api =~= "netease returned code "@ + dec_int(code as int) + (": "@ + reason));
    ends_with(
        NeteaseErrView::Api { code: code as int, message: None }.message(),
        dec_int(code as int),
    );
    let gone = NeteaseErrView::UrlExpired { status: status as int, url: reason }.message();
    ends_with(gone, reason);
    let open = "cdn refused audio url with "@;
    let n = dec(status as nat);
    let rest = gone.skip((open.len() + n.len()) as int);
    what_is_put_in_is_contained(open, n, rest);
    assert(gone =~= open + n + rest);
}

proof fn ends_with(message: Seq<char>, reason: Seq<char>)
    requires
        message.len() >= reason.len(),
        message.skip(message.len() - reason.len()) =~= reason,
    ensures
        reason.is_suffix_of(message),
{
}

/// What is said of an error is its kind and what it holds.
pub proof fn a_failure_shows_what_it_holds(e: NeteaseErr)
    ensures
        match e {
            NeteaseErr::Http(m) => e@ == NeteaseErrView::Http(m@),
            NeteaseErr::Decode(m) => e@ == NeteaseErrView::Decode(m@),
            NeteaseErr::Api { code: c, message: text } => e@ matches NeteaseErrView::Api {
                code,
                message,
            } && code == c && (match text {
                Some(m) => message == Some(m@),
                None => message is None,
            }),
            NeteaseErr::BadRequest(m) => e@ == NeteaseErrView::BadRequest(m@),
            NeteaseErr::Io { not_found, message } => e@ == (NeteaseErrView::Io {
                not_found,
                message: message@,
            }),
            NeteaseErr::UrlExpired { status, url } => e@ == (NeteaseErrView::UrlExpired {
                status: status as int,
                url: url@,
            }),
        },
{
}

} // verus!
