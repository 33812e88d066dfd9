//! The facade of the service: the one place through which chat turns and
//! calls into the blocking resource pass.

use crate::blocking::{
    answer_view, ingestion_result, ingestion_view, query_result, settle_ingestion, settle_query,
    text_result_view, unit_result_view, ForeignValue,
};
use crate::chat::{
    step as turn_step, ChatRequest, ChatRequestView, ChatTurn, TurnEvent, TurnState, TurnView,
};
use crate::error::{AIModelError, AIModelErrorView};
use crate::gate::{admitted, step as gate_step, ticket_view, Admission, Gate, GateEvent, GateView};
use crate::history::{most_recent, History, Message, MessageView, Role};
use vstd::prelude::*;
use vstd::string::*;

verus! {

/// The model that answers every chat turn.
pub const MODEL_ID: &'static str = "llama3.1:latest";

/// The number of messages a session retains.
pub const HISTORY_LIMIT: usize = 30;

/// Mathematical value of an [`AIModel`].
pub struct AIModelView {
    /// The messages of the session, oldest first.
    pub history: Seq<MessageView>,
    /// The largest number of messages the session retains.
    pub history_limit: nat,
    /// Admission to the blocking resource.
    pub gate: GateView,
}

/// The message that records what the user asked.
pub open spec fn user_message(input: Seq<char>) -> MessageView {
    MessageView { role: Role::User, content: input }
}

/// The message that records what the assistant replied.
pub open spec fn assistant_message(reply: Seq<char>) -> MessageView {
    MessageView { role: Role::Assistant, content: reply }
}

/// The request that opens a turn: the conversation as the session retains it
/// once the user's input is appended, addressed to the fixed model.
pub open spec fn next_request(history: Seq<MessageView>, limit: nat, input: Seq<char>) -> ChatRequestView {
    ChatRequestView {
        model: MODEL_ID@,
        messages: most_recent(history.push(user_message(input)), limit),
    }
}

/// What the session retains once a turn is handed back. Only a turn that
/// completed with some text adds to it: the whole reply, as one message of
/// the assistant.
pub open spec fn history_after_turn(history: Seq<MessageView>, limit: nat, turn: TurnView) -> Seq<
    MessageView,
> {
    if turn.state is Completed && turn.reply.len() > 0 {
        most_recent(history.push(assistant_message(turn.reply)), limit)
    } else {
        history
    }
}

/// What handing back a turn reports: `Ok(true)` if its reply was recorded,
/// `Ok(false)` if the turn did not complete, and an error if it completed
/// without any text.
pub open spec fn turn_report(turn: TurnView) -> Result<bool, AIModelErrorView> {
    if !(turn.state is Completed) {
        Ok(false)
    } else if turn.reply.len() > 0 {
        Ok(true)
    } else {
        Err(AIModelErrorView::EmptyResponse)
    }
}

/// Mathematical value of what handing back a turn reports.
pub open spec fn report_view(report: Result<bool, AIModelError>) -> Result<bool, AIModelErrorView> {
    match report {
        Ok(recorded) => Ok(recorded),
        Err(error) => Err(error@),
    }
}

/// The service as its callers see it: one session of chat, and one blocking
/// resource for documents that admits one call at a time.
///
/// Every method that changes the service takes it by exclusive reference.
/// Whoever shares the service among concurrent callers keeps it behind a lock
/// and each method is then one critical section: the append and the snapshot
/// of one turn cannot interleave with those of another, and a ticket is
/// admitted or queued in one step.
pub struct AIModel {
    history: History,
    gate: Gate,
}

impl View for AIModel {
    type V = AIModelView;

    closed spec fn view(&self) -> AIModelView {
        AIModelView {
            history: self.history@,
            history_limit: self.history.limit(),
            gate: self.gate@,
        }
    }
}

impl AIModel {
    /// A service with an empty session that retains [`HISTORY_LIMIT`]
    /// messages, and a free resource.
    pub fn new() -> (model: AIModel)
        ensures
            model@.history == Seq::<MessageView>::empty(),
            model@.history_limit == HISTORY_LIMIT,
            model@.gate == GateView::empty(),
    {
        AIModel { history: History::new(HISTORY_LIMIT), gate: Gate::new() }
    }

    /// A service like [`AIModel::new`] whose session retains `limit`
    /// messages.
    pub fn with_history_limit(limit: usize) -> (model: AIModel)
        ensures
            model@.history == Seq::<MessageView>::empty(),
            model@.history_limit == limit,
            model@.gate == GateView::empty(),
    {
        AIModel { history: History::new(limit), gate: Gate::new() }
    }

    /// The messages of the session, oldest first.
    pub fn history(&self) -> (messages: Vec<Message>)
        ensures
            messages.deep_view() == self@.history,
            messages@.len() <= self@.history_limit,
    {
        self.history.snapshot()
    }

    /// Opens a chat turn. The input is appended to the session as a message
    /// of the user, and the request to send upstream is the session as it
    /// stands then. Returns that request and the turn, which awaits the
    /// upstream's answer to the request.
    pub fn generate_response(&mut self, input: String) -> (opened: (ChatRequest, ChatTurn))
        ensures
            opened.0@ == next_request(old(self)@.history, old(self)@.history_limit, input@),
            opened.1@ == turn_step(TurnView::idle(), TurnEvent::Started),
            final(self)@.history == opened.0@.messages,
            final(self)@.history_limit == old(self)@.history_limit,
            final(self)@.gate == old(self)@.gate,
    {
        self.history.append(Role::User, input);
        let request = ChatRequest {
            model: String::from_str(MODEL_ID),
            messages: self.history.snapshot(),
        };
        let mut turn = ChatTurn::new();
        turn.start();
        (request, turn)
    }

    /// Takes back a turn that is over. The reply of a completed turn is
    /// recorded in the session as one message of the assistant; a turn that
    /// failed or was abandoned leaves the session as it is. A turn that
    /// completed without any text is reported as an empty response and
    /// recorded nowhere.
    pub fn complete_turn(&mut self, turn: ChatTurn) -> (report: Result<bool, AIModelError>)
        ensures
            report_view(report) == turn_report(turn@),
            final(self)@.history == history_after_turn(
                old(self)@.history,
                old(self)@.history_limit,
                turn@,
            ),
            final(self)@.history_limit == old(self)@.history_limit,
            final(self)@.gate == old(self)@.gate,
    {
        match turn.state() {
            TurnState::Completed => {
                let reply = turn.into_reply();
                if reply.as_str().is_empty() {
                    Err(AIModelError::EmptyResponse)
                } else {
                    self.history.append(Role::Assistant, reply);
                    Ok(true)
                }
            },
            _ => Ok(false),
        }
    }

    /// Whether another ticket can be handed out.
    pub fn has_ticket_left(&self) -> (left: bool)
        ensures
            left == (self@.gate.issued < u64::MAX),
            self@.gate.wf(),
    {
        self.gate.issued() < u64::MAX
    }

    /// Whether the call of `ticket` may be running.
    pub fn is_admitted(&self, ticket: u64) -> (yes: bool)
        ensures
            yes == self@.gate.running.contains(ticket as nat),
    {
        self.gate.is_admitted(ticket)
    }

    /// Asks for a call into the blocking resource. Returns the ticket of the
    /// call and whether it may run at once; if not, it may run as soon as a
    /// departure names its ticket.
    pub fn request_call(&mut self) -> (granted: (u64, Admission))
        requires
            old(self)@.gate.issued < u64::MAX,
        ensures
            final(self)@.gate == gate_step(old(self)@.gate, GateEvent::Requested),
            granted.0 == old(self)@.gate.issued,
            granted.1 is Proceed <==> old(self)@.gate.running.is_empty(),
            final(self)@.history == old(self)@.history,
            final(self)@.history_limit == old(self)@.history_limit,
    {
        self.gate.request()
    }

    /// Gives up the ticket of a call that will not be made. Returns the
    /// ticket whose call may start instead, if there is one.
    pub fn withdraw_call(&mut self, ticket: u64) -> (next: Option<u64>)
        ensures
            final(self)@.gate == gate_step(old(self)@.gate, GateEvent::Left(ticket as nat)),
            ticket_view(next) == admitted(old(self)@.gate, GateEvent::Left(ticket as nat)),
            final(self)@.history == old(self)@.history,
            final(self)@.history_limit == old(self)@.history_limit,
    {
        self.gate.leave(ticket)
    }

    /// Ends the ingestion made under `ticket`: the call gives up the resource
    /// whether it succeeded or not. Returns the result of the ingestion and
    /// the ticket whose call may start now, if there is one.
    pub fn ingest_documents(&mut self, ticket: u64, outcome: Result<(), String>) -> (ended: (
        Result<(), AIModelError>,
        Option<u64>,
    ))
        ensures
            unit_result_view(ended.0) == ingestion_result(ingestion_view(outcome)),
            ticket_view(ended.1) == admitted(old(self)@.gate, GateEvent::Left(ticket as nat)),
            final(self)@.gate == gate_step(old(self)@.gate, GateEvent::Left(ticket as nat)),
            final(self)@.history == old(self)@.history,
            final(self)@.history_limit == old(self)@.history_limit,
    {
        let next = self.gate.leave(ticket);
        (settle_ingestion(outcome), next)
    }

    /// Ends the query made under `ticket`: the call gives up the resource
    /// whether it succeeded or not. Returns the result of the query and the ticket
    /// whose call may start now, if there is one.
    pub fn query_documents(&mut self, ticket: u64, outcome: Result<ForeignValue, String>) -> (ended: (
        Result<String, AIModelError>,
        Option<u64>,
    ))
        ensures
            text_result_view(ended.0) == query_result(answer_view(outcome)),
            ticket_view(ended.1) == admitted(old(self)@.gate, GateEvent::Left(ticket as nat)),
            final(self)@.gate == gate_step(old(self)@.gate, GateEvent::Left(ticket as nat)),
            final(self)@.history == old(self)@.history,
            final(self)@.history_limit == old(self)@.history_limit,
    {
        let next = self.gate.leave(ticket);
        (settle_query(outcome), next)
    }
}

/// A request carries the conversation in full: in a session that holds
/// `prior` and has room for one more message, the request consists of the
/// messages of `prior` in their order, followed by the new input of the user,
/// and of nothing else.
pub proof fn lemma_request_carries_history(prior: Seq<MessageView>, limit: nat, input: Seq<char>)
    requires
        prior.len() < limit,
    ensures
        next_request(prior, limit, input).messages.len() == prior.len() + 1,
        next_request(prior, limit, input).messages.subrange(0, prior.len() as int) == prior,
        next_request(prior, limit, input).messages.last() == user_message(input),
        next_request(prior, limit, input).model == MODEL_ID@,
{
}

/// In a session that is full, the request drops the oldest message and
/// nothing else: what remains of the session keeps its order, and the new
/// input of the user comes last.
pub proof fn lemma_request_of_full_session(prior: Seq<MessageView>, limit: nat, input: Seq<char>)
    requires
        prior.len() == limit,
        limit > 0,
    ensures
        next_request(prior, limit, input).messages.len() == limit,
        next_request(prior, limit, input).messages == prior.skip(1).push(user_message(input)),
        next_request(prior, limit, input).messages.last() == user_message(input),
{
}

/// A turn that completes adds the question and the answer, in that order: in
/// a session with room for both, the session afterwards is the session
/// before, then the input of the user, then the reply of the assistant.
pub proof fn lemma_completed_turn_extends_session(
    history: Seq<MessageView>,
    limit: nat,
    input: Seq<char>,
    turn: TurnView,
)
    requires
        history.len() + 2 <= limit,
        turn.state is Completed,
        turn.reply.len() > 0,
    ensures
        history_after_turn(next_request(history, limit, input).messages, limit, turn)
            == history.push(user_message(input)).push(assistant_message(turn.reply)),
{
}

/// A session never outgrows its limit: whatever it held within the limit, it
/// holds no more than the limit once a turn was opened and once it was handed
/// back.
pub proof fn lemma_session_stays_bounded(
    history: Seq<MessageView>,
    limit: nat,
    input: Seq<char>,
    turn: TurnView,
)
    requires
        history.len() <= limit,
    ensures
        next_request(history, limit, input).messages.len() <= limit,
        history_after_turn(history, limit, turn).len() <= limit,
{
}

} // verus!
