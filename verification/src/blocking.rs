//! What a call into the blocking resource came to.
//!
//! The resource offers two operations: an ingestion that takes nothing and
//! returns nothing, and a query that takes a text and is to return a text.
//! Whoever makes the call reports how it ended; the functions here turn that
//! report into the result the service hands to its caller.

use crate::error::{AIModelError, AIModelErrorView};
use vstd::prelude::*;

verus! {

/// A value that a query of the blocking resource returned.
#[derive(Debug, PartialEq, Eq)]
pub enum ForeignValue {
    /// The value is a text.
    Text(String),
    /// The value is something else; the field says why it is no text.
    Other(String),
}

/// Mathematical value of a [`ForeignValue`].
pub enum ForeignValueView {
    Text(Seq<char>),
    Other(Seq<char>),
}

impl View for ForeignValue {
    type V = ForeignValueView;

    open spec fn view(&self) -> ForeignValueView {
        match self {
            ForeignValue::Text(text) => ForeignValueView::Text(text@),
            ForeignValue::Other(detail) => ForeignValueView::Other(detail@),
        }
    }
}

/// Mathematical value of the report of an ingestion: done, or the detail of
/// its failure.
pub open spec fn ingestion_view(outcome: Result<(), String>) -> Result<(), Seq<char>> {
    match outcome {
        Ok(_) => Ok(()),
        Err(detail) => Err(detail@),
    }
}

/// Mathematical value of the report of a query: the value returned, or the
/// detail of its failure.
pub open spec fn answer_view(outcome: Result<ForeignValue, String>) -> Result<
    ForeignValueView,
    Seq<char>,
> {
    match outcome {
        Ok(value) => Ok(value@),
        Err(detail) => Err(detail@),
    }
}

/// Mathematical value of the result of an ingestion.
pub open spec fn unit_result_view(result: Result<(), AIModelError>) -> Result<
    (),
    AIModelErrorView,
> {
    match result {
        Ok(_) => Ok(()),
        Err(error) => Err(error@),
    }
}

/// Mathematical value of the result of a query.
pub open spec fn text_result_view(result: Result<String, AIModelError>) -> Result<
    Seq<char>,
    AIModelErrorView,
> {
    match result {
        Ok(text) => Ok(text@),
        Err(error) => Err(error@),
    }
}

/// The result of an ingestion: success, or a blocking-call error with the
/// detail of the failure.
pub open spec fn ingestion_result(outcome: Result<(), Seq<char>>) -> Result<(), AIModelErrorView> {
    match outcome {
        Ok(_) => Ok(()),
        Err(detail) => Err(AIModelErrorView::BlockingCallError(detail)),
    }
}

/// The result of a query: the text returned; a blocking-call error if the
/// call failed, or if what it returned is no text.
pub open spec fn query_result(outcome: Result<ForeignValueView, Seq<char>>) -> Result<
    Seq<char>,
    AIModelErrorView,
> {
    match outcome {
        Ok(ForeignValueView::Text(text)) => Ok(text),
        Ok(ForeignValueView::Other(detail)) => Err(AIModelErrorView::BlockingCallError(detail)),
        Err(detail) => Err(AIModelErrorView::BlockingCallError(detail)),
    }
}

/// Turns the report of an ingestion into its result.
pub fn settle_ingestion(outcome: Result<(), String>) -> (result: Result<(), AIModelError>)
    ensures
        unit_result_view(result) == ingestion_result(ingestion_view(outcome)),
{
    match outcome {
        Ok(_) => Ok(()),
        Err(detail) => Err(AIModelError::BlockingCallError(detail)),
    }
}

/// Turns the report of a query into its result. A value that is no text is
/// never passed on as if it were one.
pub fn settle_query(outcome: Result<ForeignValue, String>) -> (result: Result<String, AIModelError>)
    ensures
        text_result_view(result) == query_result(answer_view(outcome)),
{
    match outcome {
        Ok(ForeignValue::Text(text)) => Ok(text),
        Ok(ForeignValue::Other(detail)) => Err(AIModelError::BlockingCallError(detail)),
        Err(detail) => Err(AIModelError::BlockingCallError(detail)),
    }
}

} // verus!
