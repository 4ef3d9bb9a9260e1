//! Passing a remote audio file straight through to an HTTP response.
//!
//! The URL must have been resolved moments ago, so a refusal is reported as an
//! expired URL: on this path it nearly always means "resolved too long ago". The
//! range, the status and the range headers go through untouched, so that seeking
//! works.

use crate::json::{opt_string, opt_view};
use crate::netease::error::{NeteaseErr, NeteaseErrView};
use crate::text::{trim, trimmed};
use vstd::prelude::*;

verus! {

/// The metadata of an upstream audio response.
#[derive(Debug, Clone, PartialEq, Eq)]
pub struct AudioStream {
    /// Upstream status, passed through: 206 when a range was honoured.
    pub status: u16,
    pub content_type: Option<String>,
    /// The length of this response: the range's on a 206, not the track's.
    pub content_length: Option<u64>,
    /// Present on a 206.
    pub content_range: Option<String>,
    /// What tells the speaker that it may seek.
    pub accept_ranges: Option<String>,
}

impl AudioStream {
    /// Whether the upstream honoured a range request.
    pub fn is_partial(&self) -> (r: bool)
        ensures
            r == (self.status == 206),
    {
        self.status == 206
    }
}

/// An HTTP status in words, with its number.
pub uninterp spec fn status_words(status: u16) -> Seq<char>;

/// `reqwest::StatusCode`'s `Display`: the number and the name of `status`, which
/// the number alone decides.
#[verifier::external_body]
fn status_text(status: u16) -> (r: String)
    requires
        100 <= status < 1000,
    ensures
        r@ == status_words(status),
{
    reqwest::StatusCode::from_u16(status).map_or(String::new(), |s| s.to_string())
}

/// Whether there is an address to open at all.
pub fn check_url(url: &str) -> (r: Result<(), NeteaseErr>)
    ensures
        match r {
            Ok(_) => trimmed(url@).len() > 0,
            Err(e) => trimmed(url@).len() == 0 && e@ == NeteaseErrView::BadRequest(
                "empty audio url; resolve the track id first"@,
            ),
        },
{
    let text = trim(url);
    if text.unicode_len() == 0 {
        Err(NeteaseErr::BadRequest("empty audio url; resolve the track id first".to_owned()))
    } else {
        Ok(())
    }
}

/// A request for audio: where, and which part of it.
#[derive(Debug, Clone, PartialEq, Eq)]
pub struct AudioRequest {
    pub url: String,
    /// The value of the `Range` header.
    pub range: Option<String>,
}

/// The request that opens `url`. The range is handed on as it is.
pub fn request_audio(url: &str, range: Option<&str>) -> (r: Result<AudioRequest, NeteaseErr>)
    ensures
        match r {
            Ok(request) => trimmed(url@).len() > 0 && request.url@ == url@ && opt_string(
                request.range,
            ) == opt_view(range),
            Err(e) => trimmed(url@).len() == 0 && e@ == NeteaseErrView::BadRequest(
                "empty audio url; resolve the track id first"@,
            ),
        },
{
    match check_url(url) {
        Ok(_) => {},
        Err(e) => {
            return Err(e);
        },
    }
    Ok(
        AudioRequest {
            url: url.to_owned(),
            range: match range {
                Some(text) => Some(text.to_owned()),
                None => None,
            },
        },
    )
}

/// Whether a response of this status is passed on: success, and a range that could
/// not be satisfied, which tells the client the real length.
pub open spec fn relayed(status: u16) -> bool {
    200 <= status < 300 || status == 416
}

/// Pass an upstream response on, or say why not.
pub fn stream_audio(head: AudioStream, url: &str) -> (r: Result<AudioStream, NeteaseErr>)
    requires
        100 <= head.status < 1000,
    ensures
        match r {
            Ok(out) => relayed(head.status) && out == head,
            Err(e) => !relayed(head.status) && e@ == if head.status == 403 || head.status == 404 {
                NeteaseErrView::UrlExpired { status: head.status as int, url: url@ }
            } else {
                NeteaseErrView::BadRequest(
                    "cdn answered "@ + status_words(head.status) + " for "@ + url@,
                )
            },
        },
{
    let status: u16 = head.status;
    if status == 403 || status == 404 {
        return Err(NeteaseErr::UrlExpired { status, url: url.to_owned() });
    }
    if (200 <= status && status < 300) || status == 416 {
        return Ok(head);
    }
    let mut message = "cdn answered ".to_owned();
    message.append(status_text(status).as_str());
    message.append(" for ");
    message.append(url);
    Err(NeteaseErr::BadRequest(message))
}

/// A stream is passed on exactly where the server had it to give, in whole or in part, or
/// answers that there is no such part.
pub proof fn what_is_passed_on_was_answered(status: u16)
    ensures
        relayed(status) <==> status / 100 == 2 || status == 416,
{
}

} // verus!
