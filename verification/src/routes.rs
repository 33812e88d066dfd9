//! What the document routes answer.
//!
//! A route calls the service and turns the result into a reply: the status
//! code and the body of the response. Sending the reply is left to the
//! transport.

use crate::error::{AIModelError, AIModelErrorView};
use vstd::prelude::*;
use vstd::string::*;

verus! {

/// The status of a reply to a request that was served.
pub const STATUS_OK: u16 = 200;

/// The status of a reply to a request that the service failed to serve.
pub const STATUS_INTERNAL_SERVER_ERROR: u16 = 500;

/// The reply to one request: a status code and a body.
#[derive(Debug, PartialEq, Eq)]
pub struct Reply {
    pub status: u16,
    pub body: String,
}

/// Mathematical value of a [`Reply`].
pub struct ReplyView {
    pub status: int,
    pub body: Seq<char>,
}

impl View for Reply {
    type V = ReplyView;

    open spec fn view(&self) -> ReplyView {
        ReplyView { status: self.status as int, body: self.body@ }
    }
}

/// The reply to a request that failed: an internal server error whose body
/// is the text of the error.
pub open spec fn failure_reply(error: AIModelErrorView) -> ReplyView {
    ReplyView { status: STATUS_INTERNAL_SERVER_ERROR as int, body: error.message() }
}

/// The reply to a request to ingest documents.
pub open spec fn ingestion_reply(result: Result<(), AIModelErrorView>) -> ReplyView {
    match result {
        Ok(_) => ReplyView { status: STATUS_OK as int, body: "Documents ingested successfully"@ },
        Err(error) => failure_reply(error),
    }
}

/// The reply to a query: the answer as the body, or the failure.
pub open spec fn answer_reply(result: Result<Seq<char>, AIModelErrorView>) -> ReplyView {
    match result {
        Ok(answer) => ReplyView { status: STATUS_OK as int, body: answer },
        Err(error) => failure_reply(error),
    }
}

/// Answers a request to ingest documents, given what the service made of it.
pub fn ingest_documents(result: Result<(), AIModelError>) -> (reply: Reply)
    ensures
        reply@ == ingestion_reply(
            match result {
                Ok(_) => Ok(()),
                Err(error) => Err(error@),
            },
        ),
{
    match result {
        Ok(_) => Reply {
            status: STATUS_OK,
            body: String::from_str("Documents ingested successfully"),
        },
        Err(error) => Reply { status: STATUS_INTERNAL_SERVER_ERROR, body: error.message() },
    }
}

/// Answers a query of the documents, given what the service made of it.
pub fn query_documents(result: Result<String, AIModelError>) -> (reply: Reply)
    ensures
        reply@ == answer_reply(
            match result {
                Ok(answer) => Ok(answer@),
                Err(error) => Err(error@),
            },
        ),
{
    match result {
        Ok(answer) => Reply { status: STATUS_OK, body: answer },
        Err(error) => Reply { status: STATUS_INTERNAL_SERVER_ERROR, body: error.message() },
    }
}

} // verus!
