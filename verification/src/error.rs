//! The failures a request can end in, and the one place where a failure
//! becomes a response.

use vstd::prelude::*;
use vstd::string::StringExecFns;

use crate::request::{Response, ResponseView};

verus! {

/// Why a request could not be answered in the ordinary way.
#[derive(Clone, Debug, PartialEq, Eq)]
pub enum ServerError {
    /// A handler asked for a path parameter that its route did not bind.
    MissingParam(String),
    /// The target built for the upstream is not a URI; the text is the
    /// parser's reason.
    InvalidUri(String),
    /// The upstream could not be reached or did not answer; the text says why.
    Upstream(String),
}

/// The mathematical content of a [`ServerError`].
pub enum ServerErrorView {
    MissingParam(Seq<char>),
    InvalidUri(Seq<char>),
    Upstream(Seq<char>),
}

impl View for ServerError {
    type V = ServerErrorView;

    open spec fn view(&self) -> ServerErrorView {
        match self {
            ServerError::MissingParam(name) => ServerErrorView::MissingParam(name@),
            ServerError::InvalidUri(reason) => ServerErrorView::InvalidUri(reason@),
            ServerError::Upstream(cause) => ServerErrorView::Upstream(cause@),
        }
    }
}

impl ServerErrorView {
    /// The diagnostic a person reads.
    pub open spec fn message(self) -> Seq<char> {
        match self {
            ServerErrorView::MissingParam(name) => "Missing route parameter: "@ + name,
            ServerErrorView::InvalidUri(reason) => "Parsing URI in rewrite_to_proxy: "@ + reason,
            ServerErrorView::Upstream(cause) => "Making request to backend server: "@ + cause,
        }
    }

    /// The status the caller is answered with: 502 when the upstream is at
    /// fault, 500 when the server is.
    pub open spec fn status(self) -> u16 {
        match self {
            ServerErrorView::Upstream(_) => 502,
            _ => 500,
        }
    }
}

impl ServerError {
    /// The diagnostic a person reads.
    pub fn message(&self) -> (text: String)
        ensures
            text@ == self@.message(),
    {
        match self {
            ServerError::MissingParam(name) => {
                String::from_str("Missing route parameter: ").concat(name.as_str())
            },
            ServerError::InvalidUri(reason) => {
                String::from_str("Parsing URI in rewrite_to_proxy: ").concat(reason.as_str())
            },
            ServerError::Upstream(cause) => {
                String::from_str("Making request to backend server: ").concat(cause.as_str())
            },
        }
    }

    /// The status the caller is answered with.
    pub fn status(&self) -> (code: u16)
        ensures
            code == self@.status(),
    {
        match self {
            ServerError::Upstream(_) => 502,
            _ => 500,
        }
    }
}

/// The response that reports `error`.
pub open spec fn error_response(error: ServerErrorView) -> ResponseView {
    ResponseView { status: error.status(), body: "Something went wrong: "@ + error.message() }
}

/// Turns any failure of a request into the response its caller receives.
/// It cannot fail itself: every error has a status and a message.
pub fn error_handler(err: &ServerError) -> (response: Response)
    ensures
        response@ == error_response(err@),
        !(200 <= response.status < 300),
{
    let message = err.message();
    Response {
        status: err.status(),
        body: String::from_str("Something went wrong: ").concat(message.as_str()),
    }
}

/// A call to the upstream that failed for the reason `cause` is answered
/// with status 502, outside the success range, and with a body that ends in
/// the cause.
pub proof fn lemma_upstream_failure_reported(cause: Seq<char>)
    ensures
        error_response(ServerErrorView::Upstream(cause)).status == 502,
        cause.is_suffix_of(error_response(ServerErrorView::Upstream(cause)).body),
{
    let body = error_response(ServerErrorView::Upstream(cause)).body;
    assert(body.subrange(body.len() - cause.len(), body.len() as int) =~= cause);
}

} // verus!
