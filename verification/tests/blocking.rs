use backend::blocking::{settle_ingestion, settle_query, ForeignValue};
use backend::error::AIModelError;

#[test]
fn ingestion_that_returns_succeeds() {
    assert_eq!(settle_ingestion(Ok(())), Ok(()));
}

#[test]
fn ingestion_that_fails_is_a_blocking_call_error() {
    assert_eq!(
        settle_ingestion(Err("FileNotFoundError: docs/".to_string())),
        Err(AIModelError::BlockingCallError("FileNotFoundError: docs/".to_string()))
    );
}

#[test]
fn query_that_returns_text_gives_the_text() {
    assert_eq!(
        settle_query(Ok(ForeignValue::Text("42 pages".to_string()))),
        Ok("42 pages".to_string())
    );
}

#[test]
fn query_that_returns_empty_text_gives_empty_text() {
    assert_eq!(settle_query(Ok(ForeignValue::Text(String::new()))), Ok(String::new()));
}

#[test]
fn query_that_returns_no_text_is_a_blocking_call_error() {
    assert_eq!(
        settle_query(Ok(ForeignValue::Other("'int' object cannot be converted".to_string()))),
        Err(AIModelError::BlockingCallError("'int' object cannot be converted".to_string()))
    );
}

#[test]
fn query_that_fails_is_a_blocking_call_error() {
    assert_eq!(
        settle_query(Err("worker panicked".to_string())),
        Err(AIModelError::BlockingCallError("worker panicked".to_string()))
    );
}
