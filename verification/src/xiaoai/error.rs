//! What can go wrong with Xiaomi's cloud.

use crate::brain::error::labelled;
use vstd::prelude::*;

verus! {

#[derive(Debug, Clone, PartialEq, Eq)]
pub enum XiaoaiErr {
    Auth(String),
    Op(String),
    Record(String),
}

/// What a [`XiaoaiErr`] says.
pub enum XiaoaiErrView {
    Auth(Seq<char>),
    Op(Seq<char>),
    Record(Seq<char>),
}

impl View for XiaoaiErr {
    type V = XiaoaiErrView;

    open spec fn view(&self) -> XiaoaiErrView {
        match *self {
            XiaoaiErr::Auth(m) => XiaoaiErrView::Auth(m@),
            XiaoaiErr::Op(m) => XiaoaiErrView::Op(m@),
            XiaoaiErr::Record(m) => XiaoaiErrView::Record(m@),
        }
    }
}

impl XiaoaiErrView {
    /// The error in words.
    pub open spec fn message(self) -> Seq<char> {
        match self {
            XiaoaiErrView::Auth(m) => "Login failed: "@ + m,
            XiaoaiErrView::Op(m) => "Op failed: "@ + m,
            XiaoaiErrView::Record(m) => "Record query failed: "@ + m,
        }
    }
}

impl XiaoaiErr {
    /// The error in words.
    pub fn message(&self) -> (r: String)
        ensures
            r@ == self@.message(),
    {
        match self {
            XiaoaiErr::Auth(m) => labelled("Login failed: ", m.as_str()),
            XiaoaiErr::Op(m) => labelled("Op failed: ", m.as_str()),
            XiaoaiErr::Record(m) => labelled("Record query failed: ", m.as_str()),
        }
    }

    /// A failure of the login with this reason.
    pub fn auth(reason: &str) -> (r: Self)
        ensures
            r@ == XiaoaiErrView::Auth(reason@),
    {
        XiaoaiErr::Auth(reason.to_owned())
    }
}

/// Every error says why, behind what failed: a login, an operation or a query for records.
pub proof fn an_error_says_what_failed_and_why(reason: Seq<char>)
    ensures
        XiaoaiErrView::Auth(reason).message() == "Login failed: "@ + reason,
        XiaoaiErrView::Op(reason).message() == "Op failed: "@ + reason,
        XiaoaiErrView::Record(reason).message() == "Record query failed: "@ + reason,
{
}

/// What is said of an error is its kind and the reason it holds.
pub proof fn a_failure_shows_its_kind(e: XiaoaiErr)
    ensures
        match e {
            XiaoaiErr::Auth(m) => e@ == XiaoaiErrView::Auth(m@),
            XiaoaiErr::Op(m) => e@ == XiaoaiErrView::Op(m@),
            XiaoaiErr::Record(m) => e@ == XiaoaiErrView::Record(m@),
        },
{
}

} // verus!
