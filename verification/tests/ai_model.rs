use backend::ai_model::{AIModel, HISTORY_LIMIT, MODEL_ID};
use backend::blocking::ForeignValue;
use backend::chat::{ChatChunk, TurnState};
use backend::error::AIModelError;
use backend::gate::Admission;
use backend::history::{Message, Role};

fn chunk(text: &str) -> Option<Result<ChatChunk, String>> {
    Some(Ok(ChatChunk { content: Some(text.to_string()) }))
}

fn complete_one_turn(model: &mut AIModel, input: &str, reply: &[&str]) {
    let (_, mut turn) = model.generate_response(input.to_string());
    turn.accept();
    for part in reply {
        turn.deliver(chunk(part));
    }
    turn.deliver(None);
    assert_eq!(model.complete_turn(turn), Ok(true));
}

#[test]
fn constants_of_the_service() {
    assert_eq!(MODEL_ID, "llama3.1:latest");
    assert_eq!(HISTORY_LIMIT, 30);
}

#[test]
fn new_model_has_empty_session_and_free_resource() {
    let mut model = AIModel::new();
    assert!(model.history().is_empty());
    assert!(model.has_ticket_left());
    assert!(!model.is_admitted(0));
    assert_eq!(model.request_call(), (0, Admission::Proceed));
}

#[test]
fn first_request_holds_the_input_alone() {
    let mut model = AIModel::new();
    let (request, turn) = model.generate_response("What is Rust?".to_string());
    assert_eq!(request.model, "llama3.1:latest");
    assert_eq!(request.messages, vec![Message::user("What is Rust?".to_string())]);
    assert_eq!(turn.state(), TurnState::Requesting);
    assert!(!turn.wants_upstream());
    assert_eq!(model.history(), request.messages);
}

#[test]
fn request_carries_prior_messages_then_the_input() {
    let mut model = AIModel::new();
    complete_one_turn(&mut model, "q1", &["a", "1"]);
    complete_one_turn(&mut model, "q2", &["a2"]);
    let prior = model.history();
    assert_eq!(prior.len(), 4);
    let (request, _) = model.generate_response("q3".to_string());
    assert_eq!(request.messages.len(), prior.len() + 1);
    assert_eq!(request.messages[..4], prior[..]);
    assert_eq!(
        request.messages,
        vec![
            Message { role: Role::User, content: "q1".to_string() },
            Message { role: Role::Assistant, content: "a1".to_string() },
            Message { role: Role::User, content: "q2".to_string() },
            Message { role: Role::Assistant, content: "a2".to_string() },
            Message { role: Role::User, content: "q3".to_string() },
        ]
    );
}

#[test]
fn request_with_empty_input_still_ends_in_the_input() {
    let mut model = AIModel::new();
    let (request, _) = model.generate_response(String::new());
    assert_eq!(request.messages, vec![Message::user(String::new())]);
}

#[test]
fn request_of_a_full_session_drops_the_oldest_message() {
    let mut model = AIModel::with_history_limit(3);
    complete_one_turn(&mut model, "q1", &["a1"]);
    let (request, _) = model.generate_response("q2".to_string());
    assert_eq!(request.messages.len(), 3);
    let (request, _) = model.generate_response("q3".to_string());
    assert_eq!(
        request.messages,
        vec![
            Message::assistant("a1".to_string()),
            Message::user("q2".to_string()),
            Message::user("q3".to_string()),
        ]
    );
}

#[test]
fn default_session_retains_thirty_messages() {
    let mut model = AIModel::new();
    for i in 0..40 {
        let (request, _) = model.generate_response(format!("q{}", i));
        assert_eq!(request.messages.len(), std::cmp::min(i + 1, 30));
        assert_eq!(request.messages.last().unwrap().content, format!("q{}", i));
    }
    let history = model.history();
    assert_eq!(history.len(), 30);
    assert_eq!(history[0].content, "q10");
    assert_eq!(history[29].content, "q39");
}

#[test]
fn completed_turn_records_the_reply() {
    let mut model = AIModel::new();
    complete_one_turn(&mut model, "hello", &["Hi", "", " there"]);
    assert_eq!(
        model.history(),
        vec![Message::user("hello".to_string()), Message::assistant("Hi there".to_string())]
    );
}

#[test]
fn rejected_turn_records_no_reply() {
    let mut model = AIModel::new();
    let (_, mut turn) = model.generate_response("hello".to_string());
    assert_eq!(
        turn.reject("connection refused".to_string()),
        AIModelError::RequestError("connection refused".to_string())
    );
    assert_eq!(model.complete_turn(turn), Ok(false));
    assert_eq!(model.history(), vec![Message::user("hello".to_string())]);
}

#[test]
fn turn_that_failed_midway_records_no_reply() {
    let mut model = AIModel::new();
    let (_, mut turn) = model.generate_response("hello".to_string());
    turn.accept();
    turn.deliver(chunk("par"));
    assert_eq!(
        turn.deliver(Some(Err("()".to_string()))),
        Some(Err(AIModelError::StreamingError("()".to_string())))
    );
    turn.deliver(None);
    assert_eq!(model.complete_turn(turn), Ok(false));
    assert_eq!(model.history().len(), 1);
}

#[test]
fn abandoned_turn_records_no_reply() {
    let mut model = AIModel::new();
    let (_, mut turn) = model.generate_response("hello".to_string());
    turn.accept();
    turn.deliver(chunk("par"));
    turn.abandon();
    assert_eq!(model.complete_turn(turn), Ok(false));
    assert_eq!(model.history().len(), 1);
}

#[test]
fn completion_without_text_is_an_empty_response() {
    let mut model = AIModel::new();
    let (_, mut turn) = model.generate_response("hello".to_string());
    turn.accept();
    turn.deliver(Some(Ok(ChatChunk { content: None })));
    turn.deliver(chunk(""));
    turn.deliver(None);
    assert_eq!(turn.state(), TurnState::Completed);
    assert_eq!(model.complete_turn(turn), Err(AIModelError::EmptyResponse));
    assert_eq!(model.history(), vec![Message::user("hello".to_string())]);
}

#[test]
fn turns_do_not_touch_the_gate() {
    let mut model = AIModel::new();
    let (ticket, _) = model.request_call();
    complete_one_turn(&mut model, "q", &["a"]);
    assert!(model.is_admitted(ticket));
    assert_eq!(model.request_call(), (1, Admission::Wait));
}

#[test]
fn ingestion_runs_under_its_ticket_and_frees_the_resource() {
    let mut model = AIModel::new();
    let (ticket, admission) = model.request_call();
    assert_eq!(admission, Admission::Proceed);
    assert!(model.is_admitted(ticket));
    assert_eq!(model.ingest_documents(ticket, Ok(())), (Ok(()), None));
    assert!(!model.is_admitted(ticket));
    assert_eq!(model.request_call(), (1, Admission::Proceed));
}

#[test]
fn failed_ingestion_still_frees_the_resource() {
    let mut model = AIModel::new();
    let (first, _) = model.request_call();
    let (second, admission) = model.request_call();
    assert_eq!(admission, Admission::Wait);
    assert_eq!(
        model.ingest_documents(first, Err("RuntimeError: index locked".to_string())),
        (
            Err(AIModelError::BlockingCallError("RuntimeError: index locked".to_string())),
            Some(second)
        )
    );
    assert!(model.is_admitted(second));
}

#[test]
fn query_returns_the_text_of_the_resource() {
    let mut model = AIModel::new();
    let (ticket, _) = model.request_call();
    assert_eq!(
        model.query_documents(ticket, Ok(ForeignValue::Text("see page 3".to_string()))),
        (Ok("see page 3".to_string()), None)
    );
}

#[test]
fn query_that_returns_no_text_is_an_error() {
    let mut model = AIModel::new();
    let (ticket, _) = model.request_call();
    assert_eq!(
        model.query_documents(ticket, Ok(ForeignValue::Other("got a list".to_string()))),
        (Err(AIModelError::BlockingCallError("got a list".to_string())), None)
    );
    assert!(!model.is_admitted(ticket));
}

#[test]
fn withdrawn_call_leaves_the_queue() {
    let mut model = AIModel::new();
    let (first, _) = model.request_call();
    let (second, _) = model.request_call();
    let (third, _) = model.request_call();
    assert_eq!(model.withdraw_call(second), None);
    assert_eq!(model.ingest_documents(first, Ok(())), (Ok(()), Some(third)));
}

struct FailsOnSecondCall {
    calls: usize,
    inside: bool,
}

impl FailsOnSecondCall {
    fn query(&mut self, input: &str) -> Result<ForeignValue, String> {
        assert!(!self.inside, "the resource was entered twice at once");
        self.inside = true;
        self.calls += 1;
        let outcome = if self.calls == 2 {
            Err("stub failure".to_string())
        } else {
            Ok(ForeignValue::Text(format!("answer to {}", input)))
        };
        self.inside = false;
        outcome
    }
}

#[test]
fn two_concurrent_queries_serialize_one_succeeds_one_fails() {
    let mut model = AIModel::new();
    let mut stub = FailsOnSecondCall { calls: 0, inside: false };

    let (first, first_admission) = model.request_call();
    let (second, second_admission) = model.request_call();
    assert_eq!(first_admission, Admission::Proceed);
    assert_eq!(second_admission, Admission::Wait);
    assert!(model.is_admitted(first));
    assert!(!model.is_admitted(second));

    let outcome = stub.query("alpha");
    let (first_result, next) = model.query_documents(first, outcome);
    assert_eq!(next, Some(second));
    assert!(model.is_admitted(second));

    let outcome = stub.query("beta");
    let (second_result, next) = model.query_documents(second, outcome);
    assert_eq!(next, None);

    assert_eq!(first_result, Ok("answer to alpha".to_string()));
    assert_eq!(
        second_result,
        Err(AIModelError::BlockingCallError("stub failure".to_string()))
    );
    let results = [first_result, second_result];
    assert_eq!(results.iter().filter(|r| r.is_ok()).count(), 1);
    assert_eq!(results.iter().filter(|r| r.is_err()).count(), 1);
    assert_eq!(stub.calls, 2);
}
