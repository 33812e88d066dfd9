use backend::error::AIModelError;
use backend::routes::{
    ingest_documents, query_documents, Reply, STATUS_INTERNAL_SERVER_ERROR, STATUS_OK,
};

#[test]
fn status_codes() {
    assert_eq!(STATUS_OK, 200);
    assert_eq!(STATUS_INTERNAL_SERVER_ERROR, 500);
}

#[test]
fn successful_ingestion_is_confirmed() {
    assert_eq!(
        ingest_documents(Ok(())),
        Reply { status: 200, body: "Documents ingested successfully".to_string() }
    );
}

#[test]
fn failed_ingestion_is_an_internal_server_error() {
    assert_eq!(
        ingest_documents(Err(AIModelError::BlockingCallError("disk full".to_string()))),
        Reply { status: 500, body: "Python error: disk full".to_string() }
    );
}

#[test]
fn answered_query_carries_the_answer() {
    assert_eq!(
        query_documents(Ok("It is on page 3.".to_string())),
        Reply { status: 200, body: "It is on page 3.".to_string() }
    );
}

#[test]
fn answered_query_may_be_empty() {
    assert_eq!(query_documents(Ok(String::new())), Reply { status: 200, body: String::new() });
}

#[test]
fn failed_query_is_an_internal_server_error() {
    assert_eq!(
        query_documents(Err(AIModelError::BlockingCallError("not a text".to_string()))),
        Reply { status: 500, body: "Python error: not a text".to_string() }
    );
    assert_eq!(
        query_documents(Err(AIModelError::EmptyResponse)),
        Reply { status: 500, body: "Empty response generated".to_string() }
    );
}
