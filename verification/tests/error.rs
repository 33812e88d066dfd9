use backend::error::AIModelError;

#[test]
fn request_error_text() {
    let error = AIModelError::RequestError("connection refused".to_string());
    assert_eq!(error.message(), "Request error: connection refused");
    assert_eq!(error.detail(), "connection refused");
}

#[test]
fn streaming_error_text() {
    let error = AIModelError::StreamingError("()".to_string());
    assert_eq!(error.message(), "Streaming error: ()");
    assert_eq!(error.detail(), "()");
}

#[test]
fn empty_response_text() {
    let error = AIModelError::EmptyResponse;
    assert_eq!(error.message(), "Empty response generated");
    assert_eq!(error.detail(), "");
}

#[test]
fn blocking_call_error_text() {
    let error = AIModelError::BlockingCallError("ValueError: no documents".to_string());
    assert_eq!(error.message(), "Python error: ValueError: no documents");
    assert_eq!(error.detail(), "ValueError: no documents");
}

#[test]
fn error_with_empty_detail_keeps_its_prefix() {
    assert_eq!(AIModelError::RequestError(String::new()).message(), "Request error: ");
}

#[test]
fn error_cases_are_distinct() {
    let detail = "same".to_string();
    assert_ne!(
        AIModelError::RequestError(detail.clone()),
        AIModelError::StreamingError(detail.clone())
    );
    assert_ne!(
        AIModelError::StreamingError(detail.clone()),
        AIModelError::BlockingCallError(detail.clone())
    );
    assert_ne!(AIModelError::EmptyResponse, AIModelError::RequestError(String::new()));
}

#[test]
fn clone_keeps_case_and_detail() {
    let error = AIModelError::StreamingError("reset".to_string());
    assert_eq!(error.clone(), error);
    assert_eq!(AIModelError::EmptyResponse.clone(), AIModelError::EmptyResponse);
}
