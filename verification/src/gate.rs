//! Admission to a resource that tolerates one caller at a time.
//!
//! Every call into the resource first asks for a ticket. One ticket runs and
//! the others queue in the order in which they asked; when the running call
//! leaves, the ticket that has waited longest runs next. A [`Gate`] never
//! blocks: it only decides, and whoever embeds it suspends and wakes the
//! callers accordingly.

use std::collections::VecDeque;
use vstd::prelude::*;

verus! {

/// What a caller is told when it asks for admission.
#[derive(Debug, Clone, Copy, PartialEq, Eq)]
pub enum Admission {
    /// The resource is free: the call may run now.
    Proceed,
    /// Another call is running: wait until this ticket is admitted.
    Wait,
}

/// Mathematical value of a [`Gate`].
pub struct GateView {
    /// The number of tickets handed out so far; also the next ticket.
    pub issued: nat,
    /// The tickets whose call may be running.
    pub running: Set<nat>,
    /// The tickets that wait, the one that asked first in front.
    pub waiting: Seq<nat>,
}

/// Something that happens at a gate.
pub enum GateEvent {
    /// A caller asked for admission and was given the next ticket.
    Requested,
    /// The holder of a ticket left: its call returned or failed, or it gave
    /// up waiting.
    Left(nat),
}

impl GateView {
    /// A gate before anyone asked.
    pub open spec fn empty() -> GateView {
        GateView { issued: 0, running: Set::empty(), waiting: Seq::empty() }
    }

    /// The states a gate can be in. At most one call runs. Nobody waits while
    /// the resource is free. Tickets wait in the order in which they were
    /// handed out, behind the one that runs.
    pub open spec fn wf(self) -> bool {
        &&& self.running.finite()
        &&& self.running.len() <= 1
        &&& self.running.is_empty() ==> self.waiting.len() == 0
        &&& forall|t: nat| self.running.contains(t) ==> t < self.issued
        &&& forall|i: int| 0 <= i < self.waiting.len() ==> self.waiting[i] < self.issued
        &&& forall|i: int, j: int|
            0 <= i < j < self.waiting.len() ==> self.waiting[i] < self.waiting[j]
        &&& forall|t: nat, i: int|
            self.running.contains(t) && 0 <= i < self.waiting.len() ==> t < self.waiting[i]
    }
}

/// What becomes of `gate` when `event` happens.
pub open spec fn step(gate: GateView, event: GateEvent) -> GateView {
    match event {
        GateEvent::Requested => if gate.running.is_empty() {
            GateView { issued: gate.issued + 1, running: gate.running.insert(gate.issued), ..gate }
        } else {
            GateView { issued: gate.issued + 1, waiting: gate.waiting.push(gate.issued), ..gate }
        },
        GateEvent::Left(ticket) => if gate.running.contains(ticket) {
            if gate.waiting.len() > 0 {
                GateView {
                    running: gate.running.remove(ticket).insert(gate.waiting[0]),
                    waiting: gate.waiting.skip(1),
                    ..gate
                }
            } else {
                GateView { running: gate.running.remove(ticket), ..gate }
            }
        } else {
            GateView { waiting: gate.waiting.remove_value(ticket), ..gate }
        },
    }
}

/// The ticket whose call may start because of `event`, if there is one.
pub open spec fn admitted(gate: GateView, event: GateEvent) -> Option<nat> {
    match event {
        GateEvent::Requested => if gate.running.is_empty() {
            Some(gate.issued)
        } else {
            None
        },
        GateEvent::Left(ticket) => if gate.running.contains(ticket) && gate.waiting.len() > 0 {
            Some(gate.waiting[0])
        } else {
            None
        },
    }
}

/// What becomes of `gate` when all of `events` happen, in order.
pub open spec fn run(gate: GateView, events: Seq<GateEvent>) -> GateView
    decreases events.len(),
{
    if events.len() == 0 {
        gate
    } else {
        run(step(gate, events[0]), events.skip(1))
    }
}

/// Mathematical value of a ticket that is named, if one is.
pub open spec fn ticket_view(ticket: Option<u64>) -> Option<nat> {
    match ticket {
        Some(t) => Some(t as nat),
        None => None,
    }
}

/// Admission control in front of the blocking resource.
pub struct Gate {
    issued: u64,
    holder: Option<u64>,
    waiting: VecDeque<u64>,
}

impl View for Gate {
    type V = GateView;

    closed spec fn view(&self) -> GateView {
        GateView {
            issued: self.issued as nat,
            running: match self.holder {
                Some(ticket) => set![ticket as nat],
                None => Set::empty(),
            },
            waiting: self.waiting@.map_values(|ticket: u64| ticket as nat),
        }
    }
}

impl Gate {
    #[verifier::type_invariant]
    spec fn valid(&self) -> bool {
        self@.wf()
    }

    /// A gate at which nobody has asked yet.
    pub fn new() -> (gate: Gate)
        ensures
            gate@ == GateView::empty(),
    {
        let gate = Gate { issued: 0, holder: None, waiting: VecDeque::new() };
        assert(gate@.waiting =~= Seq::<nat>::empty());
        gate
    }

    /// The number of tickets handed out so far.
    pub fn issued(&self) -> (issued: u64)
        ensures
            issued == self@.issued,
            self@.wf(),
    {
        proof {
            use_type_invariant(self);
        }
        self.issued
    }

    /// The ticket whose call may be running, if there is one.
    pub fn holder(&self) -> (holder: Option<u64>)
        ensures
            match holder {
                Some(ticket) => self@.running == set![ticket as nat],
                None => self@.running == Set::<nat>::empty(),
            },
    {
        self.holder
    }

    /// Whether the call of `ticket` may be running.
    pub fn is_admitted(&self, ticket: u64) -> (yes: bool)
        ensures
            yes == self@.running.contains(ticket as nat),
    {
        match self.holder {
            Some(holder) => holder == ticket,
            None => false,
        }
    }

    /// The number of tickets that wait.
    pub fn waiting(&self) -> (count: usize)
        ensures
            count == self@.waiting.len(),
    {
        self.waiting.len()
    }

    /// Asks for admission. Returns the caller's ticket and whether its call
    /// may run at once.
    pub fn request(&mut self) -> (granted: (u64, Admission))
        requires
            old(self)@.issued < u64::MAX,
        ensures
            final(self)@ == step(old(self)@, GateEvent::Requested),
            granted.0 == old(self)@.issued,
            granted.1 is Proceed <==> old(self)@.running.is_empty(),
            granted.1 is Proceed <==> admitted(old(self)@, GateEvent::Requested) == Some(
                granted.0 as nat,
            ),
    {
        proof {
            use_type_invariant(&*self);
        }
        let ticket = self.issued;
        let ghost before = self@;
        assert((GateView { issued: before.issued + 1, ..before }).wf());
        self.issued = ticket + 1;
        match self.holder {
            None => {
                self.holder = Some(ticket);
                (ticket, Admission::Proceed)
            },
            Some(holder) => {
                let mut waiting: VecDeque<u64> = VecDeque::new();
                std::mem::swap(&mut waiting, &mut self.waiting);
                waiting.push_back(ticket);
                assert(waiting@.map_values(|t: u64| t as nat) =~= before.waiting.push(
                    before.issued,
                ));
                self.waiting = waiting;
                (ticket, Admission::Wait)
            },
        }
    }

    /// The holder of `ticket` leaves: its call is over, or it gives up
    /// waiting. Returns the ticket whose call may start now, if the
    /// departure admits one.
    pub fn leave(&mut self, ticket: u64) -> (next: Option<u64>)
        ensures
            final(self)@ == step(old(self)@, GateEvent::Left(ticket as nat)),
            ticket_view(next) == admitted(old(self)@, GateEvent::Left(ticket as nat)),
    {
        proof {
            use_type_invariant(&*self);
        }
        let ghost before = self@;
        let mut waiting: VecDeque<u64> = VecDeque::new();
        std::mem::swap(&mut waiting, &mut self.waiting);
        let ghost queue = waiting@;
        if self.is_admitted(ticket) {
            let next = waiting.pop_front();
            self.holder = next;
            assert(self@.running =~= if before.waiting.len() > 0 {
                before.running.remove(ticket as nat).insert(before.waiting[0])
            } else {
                before.running.remove(ticket as nat)
            });
            assert(waiting@.map_values(|t: u64| t as nat) =~= if before.waiting.len() > 0 {
                before.waiting.skip(1)
            } else {
                before.waiting
            });
            self.waiting = waiting;
            next
        } else {
            let mut index: usize = 0;
            while index < waiting.len() && waiting[index] != ticket
                invariant
                    waiting@ == queue,
                    index <= queue.len(),
                    forall|i: int| 0 <= i < index ==> queue[i] != ticket,
                decreases queue.len() - index,
            {
                index += 1;
            }
            proof {
                before.waiting.index_of_first_ensures(ticket as nat);
                if index < queue.len() {
                    assert(before.waiting[index as int] == ticket as nat);
                }
            }
            waiting.remove(index);
            assert(waiting@.map_values(|t: u64| t as nat) =~= before.waiting.remove_value(
                ticket as nat,
            ));
            self.waiting = waiting;
            None
        }
    }
}

/// In a valid gate the call that runs, if any, is the only one.
pub proof fn lemma_running_alone(gate: GateView, ticket: nat)
    requires
        gate.wf(),
        gate.running.contains(ticket),
    ensures
        gate.running == set![ticket],
{
    let others = gate.running.remove(ticket);
    others.lemma_len0_is_empty();
    assert(gate.running =~= others.insert(ticket));
}

/// Every event leaves a valid gate valid.
pub proof fn lemma_step_keeps_valid(gate: GateView, event: GateEvent)
    requires
        gate.wf(),
    ensures
        step(gate, event).wf(),
{
    match event {
        GateEvent::Requested => {},
        GateEvent::Left(ticket) => {
            if gate.running.contains(ticket) {
                lemma_running_alone(gate, ticket);
            } else {
                gate.waiting.index_of_first_ensures(ticket);
            }
        },
    }
}

/// Single flight: whatever happens at a valid gate, in whatever order, at
/// most one call may be running afterwards.
pub proof fn lemma_single_flight(gate: GateView, events: Seq<GateEvent>)
    requires
        gate.wf(),
    ensures
        run(gate, events).wf(),
        run(gate, events).running.finite(),
        run(gate, events).running.len() <= 1,
    decreases events.len(),
{
    if events.len() > 0 {
        lemma_step_keeps_valid(gate, events[0]);
        lemma_single_flight(step(gate, events[0]), events.skip(1));
    }
}

/// At any time at most one call may be running: however many callers ask and
/// leave, and in whatever order, after every one of these events the set of
/// tickets whose call may be running has at most one member.
pub proof fn lemma_at_most_one_call_at_any_time(events: Seq<GateEvent>)
    ensures
        forall|count: int|
            0 <= count <= events.len() ==> (#[trigger] run(
                GateView::empty(),
                events.take(count),
            )).running.len() <= 1,
{
    assert forall|count: int| 0 <= count <= events.len() implies (#[trigger] run(
        GateView::empty(),
        events.take(count),
    )).running.len() <= 1 by {
        lemma_single_flight(GateView::empty(), events.take(count));
    }
}

/// A call starts only into a free resource: the ticket that an event admits
/// is then the only one running, and an event that admits none starts no
/// call.
pub proof fn lemma_admitted_runs_alone(gate: GateView, event: GateEvent)
    requires
        gate.wf(),
    ensures
        match admitted(gate, event) {
            Some(ticket) => !gate.running.contains(ticket) && step(gate, event).running == set![
                ticket,
            ],
            None => step(gate, event).running.subset_of(gate.running),
        },
{
    match event {
        GateEvent::Requested => {},
        GateEvent::Left(ticket) => {
            if gate.running.contains(ticket) {
                lemma_running_alone(gate, ticket);
            }
        },
    }
}

/// First come, first served: the ticket that an event admits was handed out
/// before every ticket that still waits.
pub proof fn lemma_first_come_first_served(gate: GateView, event: GateEvent)
    requires
        gate.wf(),
    ensures
        match admitted(gate, event) {
            Some(ticket) => forall|i: int|
                0 <= i < step(gate, event).waiting.len() ==> ticket < #[trigger] step(
                    gate,
                    event,
                ).waiting[i],
            None => true,
        },
{
    lemma_step_keeps_valid(gate, event);
    lemma_admitted_runs_alone(gate, event);
}

/// What becomes of `gate` when the running call leaves `calls` times in a
/// row, each departure admitting the next ticket.
pub open spec fn serve(gate: GateView, calls: nat) -> GateView
    decreases calls,
{
    if calls == 0 {
        gate
    } else {
        serve(step(gate, GateEvent::Left(gate.running.choose())), (calls - 1) as nat)
    }
}

/// Nobody starves: a ticket with `position` tickets in front of it runs once
/// the running call and those in front have left, one after the other.
pub proof fn lemma_waiter_is_served(gate: GateView, position: int)
    requires
        gate.wf(),
        0 <= position < gate.waiting.len(),
    ensures
        serve(gate, (position + 1) as nat).running == set![gate.waiting[position]],
    decreases position,
{
    let holder = gate.running.choose();
    assert(gate.running.contains(holder));
    let after = step(gate, GateEvent::Left(holder));
    lemma_step_keeps_valid(gate, GateEvent::Left(holder));
    lemma_admitted_runs_alone(gate, GateEvent::Left(holder));
    if position == 0 {
        assert(serve(after, 0) == after);
    } else {
        lemma_waiter_is_served(after, position - 1);
    }
}

} // verus!
