//! What a handler answers: a status code and a body.

use vstd::prelude::*;

verus! {

/// Status of an answer to a request that was carried out.
pub const STATUS_OK: u16 = 200;

/// Status of an answer to a request that failed, whatever the failure.
pub const STATUS_INTERNAL_SERVER_ERROR: u16 = 500;

/// What a body is to be read as.
#[derive(Clone, Copy, Debug, PartialEq, Eq, Structural)]
pub enum Content {
    /// Plain text.
    Text,
    /// A fragment of HTML.
    Html,
}

/// An answer of a handler.
#[derive(Debug, PartialEq, Eq)]
pub struct Response {
    pub status: u16,
    pub content: Content,
    pub body: String,
}

/// The mathematical content of a [`Response`].
pub struct ResponseView {
    pub status: u16,
    pub content: Content,
    pub body: Seq<char>,
}

impl View for Response {
    type V = ResponseView;

    open spec fn view(&self) -> ResponseView {
        ResponseView { status: self.status, content: self.content, body: self.body@ }
    }
}

impl Response {
    /// The answer to an action that was carried out: 200, nothing to read.
    pub open spec fn spec_empty() -> ResponseView {
        ResponseView { status: STATUS_OK, content: Content::Text, body: Seq::empty() }
    }

    /// The answer that shows a page: 200, and the page as HTML.
    pub open spec fn spec_page(page: Seq<char>) -> ResponseView {
        ResponseView { status: STATUS_OK, content: Content::Html, body: page }
    }

    /// The answer to a request that failed: 500, and the diagnostic as text.
    pub open spec fn spec_failure(diagnostic: Seq<char>) -> ResponseView {
        ResponseView {
            status: STATUS_INTERNAL_SERVER_ERROR,
            content: Content::Text,
            body: diagnostic,
        }
    }

    /// Answers 200 with an empty body.
    pub fn empty() -> (response: Response)
        ensures
            response@ == Response::spec_empty(),
    {
        Response { status: STATUS_OK, content: Content::Text, body: String::new() }
    }

    /// Answers 200 with the given page.
    pub fn page(page: String) -> (response: Response)
        ensures
            response@ == Response::spec_page(page@),
    {
        Response { status: STATUS_OK, content: Content::Html, body: page }
    }

    /// Answers 500 with the given diagnostic.
    pub fn failure(diagnostic: String) -> (response: Response)
        ensures
            response@ == Response::spec_failure(diagnostic@),
    {
        Response { status: STATUS_INTERNAL_SERVER_ERROR, content: Content::Text, body: diagnostic }
    }
}

} // verus!
