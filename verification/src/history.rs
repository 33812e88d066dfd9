//! The conversation history: an ordered, bounded log of role-tagged messages.

use std::collections::VecDeque;
use vstd::prelude::*;

verus! {

/// Who wrote a message.
#[derive(Debug, Clone, Copy, PartialEq, Eq)]
pub enum Role {
    User,
    Assistant,
}

/// One entry of a conversation.
#[derive(Debug, PartialEq, Eq)]
pub struct Message {
    pub role: Role,
    pub content: String,
}

/// Mathematical value of a [`Message`].
pub struct MessageView {
    pub role: Role,
    pub content: Seq<char>,
}

impl View for Message {
    type V = MessageView;

    open spec fn view(&self) -> MessageView {
        MessageView { role: self.role, content: self.content@ }
    }
}

impl DeepView for Message {
    type V = MessageView;

    open spec fn deep_view(&self) -> MessageView {
        self@
    }
}

impl Clone for Message {
    fn clone(&self) -> (copy: Message)
        ensures
            copy@ == self@,
    {
        Message { role: self.role, content: self.content.clone() }
    }
}

impl Message {
    /// A message written by the user.
    pub fn user(content: String) -> (message: Message)
        ensures
            message@ == (MessageView { role: Role::User, content: content@ }),
    {
        Message { role: Role::User, content }
    }

    /// A message written by the assistant.
    pub fn assistant(content: String) -> (message: Message)
        ensures
            message@ == (MessageView { role: Role::Assistant, content: content@ }),
    {
        Message { role: Role::Assistant, content }
    }
}

/// The `capacity` most recent items of `log`, oldest first.
pub open spec fn most_recent<T>(log: Seq<T>, capacity: nat) -> Seq<T> {
    if log.len() <= capacity {
        log
    } else {
        log.subrange(log.len() - capacity, log.len() as int)
    }
}

/// What a log bounded by `capacity` holds after `added` was appended to it,
/// one item after the other.
pub open spec fn append_all<T>(log: Seq<T>, capacity: nat, added: Seq<T>) -> Seq<T>
    decreases added.len(),
{
    if added.len() == 0 {
        log
    } else {
        append_all(most_recent(log.push(added[0]), capacity), capacity, added.skip(1))
    }
}

/// The ordered message log of one session, bounded in length.
///
/// Messages are kept in the order in which they were appended. Once the log
/// is full, each append drops the oldest message; nothing else is ever
/// removed or reordered.
pub struct History {
    messages: VecDeque<Message>,
    capacity: usize,
}

impl View for History {
    type V = Seq<MessageView>;

    closed spec fn view(&self) -> Seq<MessageView> {
        self.messages.deep_view()
    }
}

impl History {
    #[verifier::type_invariant]
    spec fn within_capacity(&self) -> bool {
        self.messages@.len() <= self.capacity
    }

    /// The largest number of messages the log retains.
    pub closed spec fn limit(&self) -> nat {
        self.capacity as nat
    }

    /// An empty log that retains at most `capacity` messages.
    pub fn new(capacity: usize) -> (history: History)
        ensures
            history@ == Seq::<MessageView>::empty(),
            history.limit() == capacity,
    {
        let history = History { messages: VecDeque::new(), capacity };
        history
    }

    /// The largest number of messages the log retains.
    pub fn capacity(&self) -> (capacity: usize)
        ensures
            capacity == self.limit(),
    {
        self.capacity
    }

    /// The number of messages the log holds now.
    pub fn len(&self) -> (len: usize)
        ensures
            len == self@.len(),
            len <= self.limit(),
    {
        proof {
            use_type_invariant(self);
        }
        self.messages.len()
    }

    /// Whether the log holds no message.
    pub fn is_empty(&self) -> (empty: bool)
        ensures
            empty == (self@.len() == 0),
    {
        self.messages.len() == 0
    }

    /// Appends a message, dropping the oldest one if the log was full.
    pub fn append(&mut self, role: Role, content: String)
        ensures
            final(self).limit() == old(self).limit(),
            final(self)@ == most_recent(
                old(self)@.push(MessageView { role, content: content@ }),
                old(self).limit(),
            ),
    {
        proof {
            use_type_invariant(&*self);
        }
        if self.capacity == 0 {
            return ;
        }
        let mut messages: VecDeque<Message> = VecDeque::new();
        std::mem::swap(&mut messages, &mut self.messages);
        if messages.len() >= self.capacity {
            messages.pop_front();
        }
        messages.push_back(Message { role, content });
        self.messages = messages;
    }

    /// The messages of the log, oldest first, as of this call.
    pub fn snapshot(&self) -> (messages: Vec<Message>)
        ensures
            messages.deep_view() == self@,
            messages@.len() <= self.limit(),
    {
        proof {
            use_type_invariant(self);
        }
        let mut messages: Vec<Message> = Vec::new();
        let mut index: usize = 0;
        while index < self.messages.len()
            invariant
                index <= self.messages@.len(),
                messages@.len() == index,
                forall|i: int| 0 <= i < index ==> messages@[i]@ == self.messages@[i]@,
            decreases self.messages@.len() - index,
        {
            messages.push(self.messages[index].clone());
            index += 1;
        }
        messages
    }
}

/// Appending to a log that is not full keeps every message and puts the new
/// one last.
pub proof fn lemma_append_below_capacity<T>(log: Seq<T>, capacity: nat, item: T)
    requires
        log.len() < capacity,
    ensures
        most_recent(log.push(item), capacity) == log.push(item),
{
}

/// Appending to a full log drops exactly the oldest message: the rest moves
/// up by one place and the new message comes last.
pub proof fn lemma_append_at_capacity<T>(log: Seq<T>, capacity: nat, item: T)
    requires
        log.len() == capacity,
        capacity > 0,
    ensures
        most_recent(log.push(item), capacity) == log.skip(1).push(item),
        most_recent(log.push(item), capacity).len() == capacity,
{
}

/// A bounded log never exceeds its capacity, and with room for at least one
/// message the one appended last is its newest entry.
pub proof fn lemma_append_bounds<T>(log: Seq<T>, capacity: nat, item: T)
    requires
        log.len() <= capacity,
    ensures
        most_recent(log.push(item), capacity).len() <= capacity,
        capacity > 0 ==> most_recent(log.push(item), capacity).last() == item,
{
}

/// Capacity bound: whatever is appended to a bounded log, one message at a
/// time, the log then holds the most recent `capacity` messages of everything
/// it was ever given, oldest first.
pub proof fn lemma_append_all_keeps_most_recent<T>(log: Seq<T>, capacity: nat, added: Seq<T>)
    requires
        log.len() <= capacity,
    ensures
        append_all(log, capacity, added) == most_recent(log + added, capacity),
        append_all(log, capacity, added).len() <= capacity,
        (log + added).len() > capacity ==> append_all(log, capacity, added) == (log + added).subrange(
            (log + added).len() - capacity,
            (log + added).len() as int,
        ),
    decreases added.len(),
{
    if added.len() > 0 {
        let next = most_recent(log.push(added[0]), capacity);
        let rest = added.skip(1);
        lemma_append_all_keeps_most_recent(next, capacity, rest);
        assert(most_recent(next + rest, capacity) =~= most_recent(log + added, capacity));
    }
}

} // verus!
