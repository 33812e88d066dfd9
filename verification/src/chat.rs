//! One chat turn: the request that opens it, and the reply as a sequence of
//! text fragments, one per upstream chunk.
//!
//! The turn is a small state machine. Whoever performs the upstream call
//! reports each thing that happens (the request was accepted or rejected, a
//! chunk arrived, the stream ended, the consumer went away) and the turn
//! answers with the fragment to hand on, if any. [`step`] and [`output`] say
//! what every such report does; the methods of [`ChatTurn`] compute exactly
//! that.

use crate::error::{AIModelError, AIModelErrorView};
use crate::history::{Message, MessageView};
use vstd::prelude::*;
use vstd::string::*;

verus! {

/// What is sent upstream to open a turn.
#[derive(Debug, PartialEq, Eq)]
pub struct ChatRequest {
    /// The identifier of the model that is to answer.
    pub model: String,
    /// The conversation so far, oldest first, ending in the new user message.
    pub messages: Vec<Message>,
}

/// Mathematical value of a [`ChatRequest`].
pub struct ChatRequestView {
    pub model: Seq<char>,
    pub messages: Seq<MessageView>,
}

impl View for ChatRequest {
    type V = ChatRequestView;

    open spec fn view(&self) -> ChatRequestView {
        ChatRequestView { model: self.model@, messages: self.messages.deep_view() }
    }
}

/// One chunk of an upstream reply. A chunk may carry no message at all.
#[derive(Debug, PartialEq, Eq)]
pub struct ChatChunk {
    /// The text of the message the chunk carries, if it carries one.
    pub content: Option<String>,
}

impl View for ChatChunk {
    type V = Option<Seq<char>>;

    open spec fn view(&self) -> Option<Seq<char>> {
        match self.content {
            Some(text) => Some(text@),
            None => None,
        }
    }
}

/// Mathematical value of what the upstream hands over when asked for the next
/// item: a chunk, or the detail of a transport failure.
pub open spec fn item_view(item: Result<ChatChunk, String>) -> Result<Option<Seq<char>>, Seq<char>> {
    match item {
        Ok(chunk) => Ok(chunk@),
        Err(detail) => Err(detail@),
    }
}

/// Mathematical value of one poll of the upstream; `None` is its end.
pub open spec fn upstream_view(upstream: Option<Result<ChatChunk, String>>) -> Option<
    Result<Option<Seq<char>>, Seq<char>>,
> {
    match upstream {
        Some(item) => Some(item_view(item)),
        None => None,
    }
}

/// Mathematical value of a fragment: its text, or the error in its place.
pub open spec fn fragment_view(fragment: Result<String, AIModelError>) -> Result<
    Seq<char>,
    AIModelErrorView,
> {
    match fragment {
        Ok(text) => Ok(text@),
        Err(error) => Err(error@),
    }
}

/// Mathematical value of what the consumer is handed on one poll.
pub open spec fn delivery_view(delivery: Option<Result<String, AIModelError>>) -> Option<
    Result<Seq<char>, AIModelErrorView>,
> {
    match delivery {
        Some(fragment) => Some(fragment_view(fragment)),
        None => None,
    }
}

/// The text that a chunk adds to the reply: the text of its message, and the
/// empty text if it carries no message.
pub open spec fn chunk_text(chunk: Option<Seq<char>>) -> Seq<char> {
    match chunk {
        Some(text) => text,
        None => Seq::empty(),
    }
}

/// The fragment that stands for one upstream item. A chunk gives its text; a
/// transport failure gives a streaming error with the same detail.
pub open spec fn fragment_of(item: Result<Option<Seq<char>>, Seq<char>>) -> Result<
    Seq<char>,
    AIModelErrorView,
> {
    match item {
        Ok(chunk) => Ok(chunk_text(chunk)),
        Err(detail) => Err(AIModelErrorView::StreamingError(detail)),
    }
}

/// The texts of `chunks` put together, in order.
pub open spec fn joined(chunks: Seq<Option<Seq<char>>>) -> Seq<char>
    decreases chunks.len(),
{
    if chunks.len() == 0 {
        Seq::empty()
    } else {
        chunk_text(chunks[0]) + joined(chunks.skip(1))
    }
}

/// Turns one upstream item into the fragment handed to the consumer.
pub fn to_fragment(item: Result<ChatChunk, String>) -> (fragment: Result<String, AIModelError>)
    ensures
        fragment_view(fragment) == fragment_of(item_view(item)),
{
    match item {
        Ok(chunk) => match chunk.content {
            Some(text) => Ok(text),
            None => Ok(String::new()),
        },
        Err(detail) => Err(AIModelError::StreamingError(detail)),
    }
}

/// Where a turn stands.
#[derive(Debug, Clone, Copy, PartialEq, Eq)]
pub enum TurnState {
    /// Nothing was asked yet.
    Idle,
    /// The request is on its way upstream.
    Requesting,
    /// The upstream accepted the request and the reply is being delivered.
    Streaming,
    /// The upstream signalled the end of a reply delivered without error.
    Completed,
    /// The request was rejected or an item of the reply failed.
    Failed,
}

/// Mathematical value of a [`ChatTurn`].
pub struct TurnView {
    pub state: TurnState,
    /// Whether the upstream is still to be read.
    pub open: bool,
    /// The text of all fragments delivered so far, concatenated.
    pub reply: Seq<char>,
}

/// Something that happens to a turn.
pub enum TurnEvent {
    /// The turn was started: its request goes upstream.
    Started,
    /// The upstream accepted the request.
    Accepted,
    /// The request could not be initiated.
    Rejected(Seq<char>),
    /// The upstream was polled and handed over an item, or `None` at its end.
    Polled(Option<Result<Option<Seq<char>>, Seq<char>>>),
    /// The consumer dropped the sequence.
    Abandoned,
}

impl TurnView {
    /// The state in which every turn is created.
    pub open spec fn idle() -> TurnView {
        TurnView { state: TurnState::Idle, open: false, reply: Seq::empty() }
    }

    /// The states a turn can be in: the upstream is read only once it has
    /// accepted the request, and not after its end.
    pub open spec fn wf(self) -> bool {
        match self.state {
            TurnState::Idle | TurnState::Requesting => !self.open && self.reply.len() == 0,
            TurnState::Streaming => true,
            TurnState::Completed => !self.open,
            TurnState::Failed => true,
        }
    }

    /// Whether the outcome of the turn is settled.
    pub open spec fn settled(self) -> bool {
        self.state is Completed || self.state is Failed
    }

    /// Whether the turn had a stream that is read no longer: it ended or the
    /// consumer dropped it, or the request never went through.
    pub open spec fn closed_for_good(self) -> bool {
        !self.open && !(self.state is Idle) && !(self.state is Requesting)
    }
}

/// The turn after `event`. An event that does not apply in the state of the
/// turn changes nothing.
pub open spec fn step(turn: TurnView, event: TurnEvent) -> TurnView {
    match event {
        TurnEvent::Started => if turn.state is Idle {
            TurnView { state: TurnState::Requesting, ..turn }
        } else {
            turn
        },
        TurnEvent::Accepted => if turn.state is Requesting {
            TurnView { state: TurnState::Streaming, open: true, ..turn }
        } else {
            turn
        },
        TurnEvent::Rejected(_) => if turn.state is Requesting {
            TurnView { state: TurnState::Failed, ..turn }
        } else {
            turn
        },
        TurnEvent::Polled(upstream) => if !turn.open {
            turn
        } else {
            match upstream {
                None => TurnView {
                    state: if turn.state is Streaming {
                        TurnState::Completed
                    } else {
                        turn.state
                    },
                    open: false,
                    ..turn
                },
                Some(Err(_)) => TurnView {
                    state: if turn.state is Streaming {
                        TurnState::Failed
                    } else {
                        turn.state
                    },
                    ..turn
                },
                Some(Ok(chunk)) => TurnView { reply: turn.reply + chunk_text(chunk), ..turn },
            }
        },
        TurnEvent::Abandoned => TurnView { open: false, ..turn },
    }
}

/// What the consumer is handed when `event` happens to `turn`: one fragment
/// for each item polled from an upstream that is still read, nothing
/// otherwise.
pub open spec fn output(turn: TurnView, event: TurnEvent) -> Option<Result<Seq<char>, AIModelErrorView>> {
    match event {
        TurnEvent::Polled(Some(item)) => if turn.open {
            Some(fragment_of(item))
        } else {
            None
        },
        _ => None,
    }
}

/// The turn after all of `events`, in order.
pub open spec fn run(turn: TurnView, events: Seq<TurnEvent>) -> TurnView
    decreases events.len(),
{
    if events.len() == 0 {
        turn
    } else {
        run(step(turn, events[0]), events.skip(1))
    }
}

/// The fragments handed to the consumer in the course of `events`, in order.
pub open spec fn fragments(turn: TurnView, events: Seq<TurnEvent>) -> Seq<
    Result<Seq<char>, AIModelErrorView>,
>
    decreases events.len(),
{
    if events.len() == 0 {
        Seq::empty()
    } else {
        let rest = fragments(step(turn, events[0]), events.skip(1));
        match output(turn, events[0]) {
            Some(fragment) => seq![fragment] + rest,
            None => rest,
        }
    }
}

/// The state of one chat turn, from the request to the end of the reply.
pub struct ChatTurn {
    state: TurnState,
    open: bool,
    reply: String,
}

impl View for ChatTurn {
    type V = TurnView;

    closed spec fn view(&self) -> TurnView {
        TurnView { state: self.state, open: self.open, reply: self.reply@ }
    }
}

impl ChatTurn {
    #[verifier::type_invariant]
    spec fn valid(&self) -> bool {
        self@.wf()
    }

    /// A turn in which nothing was asked yet.
    pub fn new() -> (turn: ChatTurn)
        ensures
            turn@ == TurnView::idle(),
    {
        ChatTurn { state: TurnState::Idle, open: false, reply: String::new() }
    }

    /// Where the turn stands.
    pub fn state(&self) -> (state: TurnState)
        ensures
            state == self@.state,
            self@.wf(),
    {
        proof {
            use_type_invariant(self);
        }
        self.state
    }

    /// Whether the upstream is to be polled for the next item.
    pub fn wants_upstream(&self) -> (open: bool)
        ensures
            open == self@.open,
    {
        self.open
    }

    /// The text of the fragments delivered so far, concatenated.
    pub fn reply(&self) -> (text: &String)
        ensures
            text@ == self@.reply,
    {
        &self.reply
    }

    /// Gives up the turn for the text of the fragments it delivered.
    pub fn into_reply(self) -> (text: String)
        ensures
            text@ == self@.reply,
    {
        self.reply
    }

    /// The request goes upstream.
    pub fn start(&mut self)
        ensures
            final(self)@ == step(old(self)@, TurnEvent::Started),
    {
        proof {
            use_type_invariant(&*self);
        }
        match self.state {
            TurnState::Idle => {
                self.state = TurnState::Requesting;
            },
            _ => {},
        }
    }

    /// The upstream accepted the request: its reply can be polled.
    pub fn accept(&mut self)
        ensures
            final(self)@ == step(old(self)@, TurnEvent::Accepted),
    {
        proof {
            use_type_invariant(&*self);
        }
        match self.state {
            TurnState::Requesting => {
                self.state = TurnState::Streaming;
                self.open = true;
            },
            _ => {},
        }
    }

    /// The request could not be initiated. Returns the error to hand to the
    /// caller in place of a sequence of fragments.
    pub fn reject(&mut self, detail: String) -> (error: AIModelError)
        ensures
            final(self)@ == step(old(self)@, TurnEvent::Rejected(detail@)),
            error@ == AIModelErrorView::RequestError(detail@),
    {
        proof {
            use_type_invariant(&*self);
        }
        match self.state {
            TurnState::Requesting => {
                self.state = TurnState::Failed;
            },
            _ => {},
        }
        AIModelError::RequestError(detail)
    }

    /// Takes what one poll of the upstream gave, `None` being its end, and
    /// returns what the consumer is handed for it.
    pub fn deliver(&mut self, upstream: Option<Result<ChatChunk, String>>) -> (delivery: Option<
        Result<String, AIModelError>,
    >)
        ensures
            final(self)@ == step(old(self)@, TurnEvent::Polled(upstream_view(upstream))),
            delivery_view(delivery) == output(
                old(self)@,
                TurnEvent::Polled(upstream_view(upstream)),
            ),
    {
        proof {
            use_type_invariant(&*self);
        }
        if !self.open {
            return None;
        }
        match upstream {
            None => {
                self.open = false;
                match self.state {
                    TurnState::Streaming => {
                        self.state = TurnState::Completed;
                    },
                    _ => {},
                }
                None
            },
            Some(item) => {
                let fragment = to_fragment(item);
                match &fragment {
                    Ok(text) => {
                        let mut reply = String::new();
                        std::mem::swap(&mut reply, &mut self.reply);
                        reply.append(text.as_str());
                        self.reply = reply;
                    },
                    Err(_) => {
                        match self.state {
                            TurnState::Streaming => {
                                self.state = TurnState::Failed;
                            },
                            _ => {},
                        }
                    },
                }
                Some(fragment)
            },
        }
    }

    /// The consumer dropped the sequence: the upstream is read no further.
    pub fn abandon(&mut self)
        ensures
            final(self)@ == step(old(self)@, TurnEvent::Abandoned),
    {
        proof {
            use_type_invariant(&*self);
        }
        self.open = false;
    }
}

/// The poll events in which the upstream hands over `items`, one per poll.
pub open spec fn polls(items: Seq<Result<Option<Seq<char>>, Seq<char>>>) -> Seq<TurnEvent> {
    items.map_values(|item: Result<Option<Seq<char>>, Seq<char>>| TurnEvent::Polled(Some(item)))
}

/// Every event leaves a valid turn valid.
pub proof fn lemma_step_keeps_valid(turn: TurnView, event: TurnEvent)
    requires
        turn.wf(),
    ensures
        step(turn, event).wf(),
{
}

/// A single event: the turn takes one step and the consumer is handed what
/// that step puts out.
pub proof fn lemma_run_one(turn: TurnView, event: TurnEvent)
    ensures
        run(turn, seq![event]) == step(turn, event),
        fragments(turn, seq![event]) == match output(turn, event) {
            Some(fragment) => seq![fragment],
            None => Seq::empty(),
        },
{
    let rest = seq![event].skip(1);
    assert(run(step(turn, event), rest) == step(turn, event));
    assert(fragments(step(turn, event), rest) =~= Seq::<
        Result<Seq<char>, AIModelErrorView>,
    >::empty());
}

/// Running one list of events after another is running both in a row, and
/// the consumer is handed the fragments of the first, then those of the
/// second.
pub proof fn lemma_run_in_two_parts(turn: TurnView, first: Seq<TurnEvent>, then: Seq<TurnEvent>)
    ensures
        run(turn, first + then) == run(run(turn, first), then),
        fragments(turn, first + then) == fragments(turn, first) + fragments(
            run(turn, first),
            then,
        ),
    decreases first.len(),
{
    if first.len() > 0 {
        assert((first + then).skip(1) =~= first.skip(1) + then);
        lemma_run_in_two_parts(step(turn, first[0]), first.skip(1), then);
    }
}

/// A turn whose stream is read no longer stays as it is whatever happens, and
/// hands the consumer nothing more.
pub proof fn lemma_closed_turn_is_silent(turn: TurnView, events: Seq<TurnEvent>)
    requires
        turn.closed_for_good(),
    ensures
        run(turn, events) == turn,
        fragments(turn, events) == Seq::<Result<Seq<char>, AIModelErrorView>>::empty(),
    decreases events.len(),
{
    if events.len() > 0 {
        lemma_closed_turn_is_silent(turn, events.skip(1));
    }
}

/// A turn that got past its request never returns to an earlier state.
pub proof fn lemma_stream_stays_opened(turn: TurnView, events: Seq<TurnEvent>)
    requires
        !(turn.state is Idle),
        !(turn.state is Requesting),
    ensures
        !(run(turn, events).state is Idle),
        !(run(turn, events).state is Requesting),
    decreases events.len(),
{
    if events.len() > 0 {
        lemma_stream_stays_opened(step(turn, events[0]), events.skip(1));
    }
}

/// Abandoning ends delivery: once the consumer has dropped the sequence,
/// whatever the upstream would still produce, the consumer has been handed
/// exactly the fragments it had consumed before, and the upstream is polled
/// no more.
pub proof fn lemma_abandoning_ends_delivery(
    turn: TurnView,
    consumed: Seq<TurnEvent>,
    later: Seq<TurnEvent>,
)
    requires
        !(turn.state is Idle),
        !(turn.state is Requesting),
    ensures
        fragments(turn, consumed.push(TurnEvent::Abandoned) + later) == fragments(turn, consumed),
        !run(turn, consumed.push(TurnEvent::Abandoned) + later).open,
{
    let reached = run(turn, consumed);
    let dropped = step(reached, TurnEvent::Abandoned);
    let last = seq![TurnEvent::Abandoned];
    lemma_stream_stays_opened(turn, consumed);
    assert(consumed.push(TurnEvent::Abandoned) =~= consumed + last);
    lemma_run_one(reached, TurnEvent::Abandoned);
    lemma_run_in_two_parts(turn, consumed, last);
    lemma_run_in_two_parts(turn, consumed + last, later);
    lemma_closed_turn_is_silent(dropped, later);
}

/// A request that cannot be initiated fails the turn for good: the turn is
/// failed, and no fragment is ever handed to the consumer, whatever is
/// reported to the turn afterwards.
pub proof fn lemma_rejected_request_yields_no_fragment(
    turn: TurnView,
    detail: Seq<char>,
    later: Seq<TurnEvent>,
)
    requires
        turn.wf(),
        turn.state is Requesting,
    ensures
        step(turn, TurnEvent::Rejected(detail)).state is Failed,
        run(turn, seq![TurnEvent::Rejected(detail)] + later).state is Failed,
        fragments(turn, seq![TurnEvent::Rejected(detail)] + later) == Seq::<
            Result<Seq<char>, AIModelErrorView>,
        >::empty(),
{
    let first = seq![TurnEvent::Rejected(detail)];
    let failed = step(turn, TurnEvent::Rejected(detail));
    lemma_run_one(turn, TurnEvent::Rejected(detail));
    lemma_run_in_two_parts(turn, first, later);
    lemma_closed_turn_is_silent(failed, later);
}

/// One fragment per item: while the upstream is read, the consumer is handed
/// exactly one fragment for each item, in the order of the items, whether the
/// item carries text, no text or a failure; and the upstream is read on.
pub proof fn lemma_one_fragment_per_item(
    turn: TurnView,
    items: Seq<Result<Option<Seq<char>>, Seq<char>>>,
)
    requires
        turn.open,
    ensures
        run(turn, polls(items)).open,
        fragments(turn, polls(items)) == items.map_values(
            |item: Result<Option<Seq<char>>, Seq<char>>| fragment_of(item),
        ),
    decreases items.len(),
{
    let events = polls(items);
    if items.len() > 0 {
        assert(events.skip(1) =~= polls(items.skip(1)));
        lemma_one_fragment_per_item(step(turn, events[0]), items.skip(1));
    }
}

/// A reply delivered without failure completes the turn: if the upstream hands
/// over `chunks` to a streaming turn and then ends, the turn is completed, the
/// upstream is read no longer, and the reply of the turn has grown by the
/// texts of the chunks, in order.
pub proof fn lemma_clean_reply_completes(turn: TurnView, chunks: Seq<Option<Seq<char>>>)
    requires
        turn.open,
        turn.state is Streaming,
    ensures
        ({
            let items = chunks.map_values(
                |chunk: Option<Seq<char>>| Ok::<Option<Seq<char>>, Seq<char>>(chunk),
            );
            let end = run(turn, polls(items).push(TurnEvent::Polled(None)));
            &&& end.state is Completed
            &&& !end.open
            &&& end.reply == turn.reply + joined(chunks)
        }),
    decreases chunks.len(),
{
    let items = chunks.map_values(
        |chunk: Option<Seq<char>>| Ok::<Option<Seq<char>>, Seq<char>>(chunk),
    );
    let events = polls(items).push(TurnEvent::Polled(None));
    if chunks.len() == 0 {
        assert(events =~= seq![TurnEvent::Polled(None)]);
        lemma_run_one(turn, TurnEvent::Polled(None));
    } else {
        let next = step(turn, events[0]);
        let rest = chunks.skip(1);
        let rest_items = rest.map_values(
            |chunk: Option<Seq<char>>| Ok::<Option<Seq<char>>, Seq<char>>(chunk),
        );
        assert(events.skip(1) =~= polls(rest_items).push(TurnEvent::Polled(None)));
        lemma_clean_reply_completes(next, rest);
    }
}

/// The outcome of a turn is final: once completed or failed, a turn keeps
/// that state whatever happens.
pub proof fn lemma_outcome_is_final(turn: TurnView, events: Seq<TurnEvent>)
    requires
        turn.settled(),
    ensures
        run(turn, events).state == turn.state,
    decreases events.len(),
{
    if events.len() > 0 {
        lemma_outcome_is_final(step(turn, events[0]), events.skip(1));
    }
}

/// A reply fails as soon as one of its items fails: if the upstream hands
/// over a failure while a turn is streaming, the turn ends as failed, however
/// many items follow and whether or not the stream then ends.
pub proof fn lemma_failed_item_fails_turn(
    turn: TurnView,
    detail: Seq<char>,
    later: Seq<TurnEvent>,
)
    requires
        turn.open,
        turn.state is Streaming,
    ensures
        output(turn, TurnEvent::Polled(Some(Err(detail)))) == Some(
            Err::<Seq<char>, AIModelErrorView>(AIModelErrorView::StreamingError(detail)),
        ),
        step(turn, TurnEvent::Polled(Some(Err(detail)))).open,
        run(turn, seq![TurnEvent::Polled(Some(Err(detail)))] + later).state is Failed,
{
    let first = seq![TurnEvent::Polled(Some(Err(detail)))];
    let failed = step(turn, first[0]);
    lemma_run_one(turn, first[0]);
    lemma_run_in_two_parts(turn, first, later);
    lemma_outcome_is_final(failed, later);
}

} // verus!
