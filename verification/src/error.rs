//! The error taxonomy of the service.

use vstd::prelude::*;
use vstd::string::*;

verus! {

/// Why an operation of the service failed: one case per source of failure.
#[derive(Debug, PartialEq, Eq)]
pub enum AIModelError {
    /// The upstream chat request could not be initiated.
    RequestError(String),
    /// The upstream failed while the reply was being delivered.
    StreamingError(String),
    /// A reply completed without any content.
    EmptyResponse,
    /// A call into the blocking resource failed or returned malformed data.
    BlockingCallError(String),
}

/// Mathematical value of an [`AIModelError`]: its case and its detail text.
pub enum AIModelErrorView {
    RequestError(Seq<char>),
    StreamingError(Seq<char>),
    EmptyResponse,
    BlockingCallError(Seq<char>),
}

impl View for AIModelError {
    type V = AIModelErrorView;

    open spec fn view(&self) -> AIModelErrorView {
        match self {
            AIModelError::RequestError(detail) => AIModelErrorView::RequestError(detail@),
            AIModelError::StreamingError(detail) => AIModelErrorView::StreamingError(detail@),
            AIModelError::EmptyResponse => AIModelErrorView::EmptyResponse,
            AIModelError::BlockingCallError(detail) => AIModelErrorView::BlockingCallError(detail@),
        }
    }
}

impl Clone for AIModelError {
    fn clone(&self) -> (copy: AIModelError)
        ensures
            copy@ == self@,
    {
        match self {
            AIModelError::RequestError(detail) => AIModelError::RequestError(detail.clone()),
            AIModelError::StreamingError(detail) => AIModelError::StreamingError(detail.clone()),
            AIModelError::EmptyResponse => AIModelError::EmptyResponse,
            AIModelError::BlockingCallError(detail) => AIModelError::BlockingCallError(
                detail.clone(),
            ),
        }
    }
}

impl AIModelErrorView {
    /// The text shown for an error: a fixed prefix per case, then the detail.
    pub open spec fn message(self) -> Seq<char> {
        match self {
            AIModelErrorView::RequestError(detail) => "Request error: "@ + detail,
            AIModelErrorView::StreamingError(detail) => "Streaming error: "@ + detail,
            AIModelErrorView::EmptyResponse => "Empty response generated"@,
            AIModelErrorView::BlockingCallError(detail) => "Python error: "@ + detail,
        }
    }

    /// The detail carried by an error, empty where the case carries none.
    pub open spec fn detail(self) -> Seq<char> {
        match self {
            AIModelErrorView::RequestError(detail) => detail,
            AIModelErrorView::StreamingError(detail) => detail,
            AIModelErrorView::EmptyResponse => Seq::empty(),
            AIModelErrorView::BlockingCallError(detail) => detail,
        }
    }
}

impl AIModelError {
    /// The human-readable text of the error.
    pub fn message(&self) -> (text: String)
        ensures
            text@ == self@.message(),
    {
        match self {
            AIModelError::RequestError(detail) => {
                String::from_str("Request error: ").concat(detail.as_str())
            },
            AIModelError::StreamingError(detail) => {
                String::from_str("Streaming error: ").concat(detail.as_str())
            },
            AIModelError::EmptyResponse => String::from_str("Empty response generated"),
            AIModelError::BlockingCallError(detail) => {
                String::from_str("Python error: ").concat(detail.as_str())
            },
        }
    }

    /// The detail text of the error, empty for a case that carries none.
    pub fn detail(&self) -> (text: String)
        ensures
            text@ == self@.detail(),
    {
        match self {
            AIModelError::RequestError(detail) => detail.clone(),
            AIModelError::StreamingError(detail) => detail.clone(),
            AIModelError::EmptyResponse => String::new(),
            AIModelError::BlockingCallError(detail) => detail.clone(),
        }
    }
}

} // verus!
