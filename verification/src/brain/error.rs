//! The error type that every device, source and tool reports with.

use vstd::prelude::*;

verus! {

/// Anything that a speaker, a music source or a tool can fail with.
#[derive(Debug, Clone, PartialEq, Eq)]
pub enum BrainErr {
    /// The underlying device, API, or filesystem failed.
    Backend(String),
    /// The operation is meaningless for this implementation. Permanent: trying
    /// again, or with another argument, will not help.
    Unsupported(String),
    /// A tool was called with arguments it could not make sense of. The message
    /// is fed back to the model, as a correction it can act on.
    InvalidArguments(String),
    /// The requested track, tool, or device does not exist.
    NotFound(String),
    /// The backend rejected us for lack (or expiry) of credentials.
    Auth(String),
    /// A JSON payload was malformed.
    Json(String),
}

/// What a [`BrainErr`] says.
pub enum BrainErrView {
    Backend(Seq<char>),
    Unsupported(Seq<char>),
    InvalidArguments(Seq<char>),
    NotFound(Seq<char>),
    Auth(Seq<char>),
    Json(Seq<char>),
}

impl View for BrainErr {
    type V = BrainErrView;

    open spec fn view(&self) -> BrainErrView {
        match *self {
            BrainErr::Backend(m) => BrainErrView::Backend(m@),
            BrainErr::Unsupported(m) => BrainErrView::Unsupported(m@),
            BrainErr::InvalidArguments(m) => BrainErrView::InvalidArguments(m@),
            BrainErr::NotFound(m) => BrainErrView::NotFound(m@),
            BrainErr::Auth(m) => BrainErrView::Auth(m@),
            BrainErr::Json(m) => BrainErrView::Json(m@),
        }
    }
}

impl BrainErrView {
    /// The error in words.
    pub open spec fn message(self) -> Seq<char> {
        match self {
            BrainErrView::Backend(m) => m,
            BrainErrView::Unsupported(m) => "unsupported: "@ + m,
            BrainErrView::InvalidArguments(m) => "invalid arguments: "@ + m,
            BrainErrView::NotFound(m) => "not found: "@ + m,
            BrainErrView::Auth(m) => "not authenticated: "@ + m,
            BrainErrView::Json(m) => "json error: "@ + m,
        }
    }
}

/// `label` followed by `text`.
pub(crate) fn labelled(label: &str, text: &str) -> (r: String)
    ensures
        r@ == label@ + text@,
{
    let mut out = label.to_owned();
    out.append(text);
    out
}

impl BrainErr {
    /// Wrap the words of any other error as a [`BrainErr::Backend`].
    pub fn backend(message: &str) -> (r: Self)
        ensures
            r@ == BrainErrView::Backend(message@),
    {
        BrainErr::Backend(message.to_owned())
    }

    /// The error in words.
    pub fn message(&self) -> (r: String)
        ensures
            r@ == self@.message(),
    {
        match self {
            BrainErr::Backend(m) => m.clone(),
            BrainErr::Unsupported(m) => labelled("unsupported: ", m.as_str()),
            BrainErr::InvalidArguments(m) => labelled("invalid arguments: ", m.as_str()),
            BrainErr::NotFound(m) => labelled("not found: ", m.as_str()),
            BrainErr::Auth(m) => labelled("not authenticated: ", m.as_str()),
            BrainErr::Json(m) => labelled("json error: ", m.as_str()),
        }
    }
}

/// What an outcome in words says.
pub open spec fn outcome(r: Result<String, BrainErr>) -> Result<Seq<char>, BrainErrView> {
    match r {
        Ok(text) => Ok(text@),
        Err(e) => Err(e@),
    }
}

/// Every error says why: its message ends with the reason it was made with. A backend's
/// reason stands alone; the other kinds say before it what kind they are, each in its own
/// words.
pub proof fn an_error_says_why(reason: Seq<char>)
    ensures
        BrainErrView::Backend(reason).message() == reason,
        BrainErrView::Unsupported(reason).message() == "unsupported: "@ + reason,
        BrainErrView::InvalidArguments(reason).message() == "invalid arguments: "@ + reason,
        BrainErrView::NotFound(reason).message() == "not found: "@ + reason,
        BrainErrView::Auth(reason).message() == "not authenticated: "@ + reason,
        BrainErrView::Json(reason).message() == "json error: "@ + reason,
{
}

/// What is said of an error is its kind and the reason it holds.
pub proof fn an_error_shows_its_kind(e: BrainErr)
    ensures
        match e {
            BrainErr::Backend(m) => e@ == BrainErrView::Backend(m@),
            BrainErr::Unsupported(m) => e@ == BrainErrView::Unsupported(m@),
            BrainErr::InvalidArguments(m) => e@ == BrainErrView::InvalidArguments(m@),
            BrainErr::NotFound(m) => e@ == BrainErrView::NotFound(m@),
            BrainErr::Auth(m) => e@ == BrainErrView::Auth(m@),
            BrainErr::Json(m) => e@ == BrainErrView::Json(m@),
        },
        outcome(Err(e)) == Err::<Seq<char>, BrainErrView>(e@),
        forall|text: String| outcome(Ok(text)) == Ok::<Seq<char>, BrainErrView>(#[trigger] text@),
{
}

} // verus!
