//! The approval suspension protocol: tickets, verdicts, and the registry
//! that delivers verdicts to waiting requests.
//!
//! A request held for approval is recorded as a ticket with an absolute
//! deadline. A ticket terminates exactly once: the first of verdict
//! delivery, deadline firing, or client cancellation claims the terminal
//! state, and everything after that is a no-op. The runtime owns the
//! waiting itself; these state machines decide who won.

use vstd::prelude::*;

verus! {

/// A verdict from the approval channel.
#[derive(Debug, Clone, Copy, PartialEq, Eq, Structural)]
pub enum Verdict {
    /// The approver granted the request.
    Granted,
    /// The approver denied the request.
    Denied,
    /// The approval channel reported silence past the deadline.
    Expired,
}

/// The lifecycle state of an approval ticket. Every state but `Waiting` is
/// terminal.
#[derive(Debug, Clone, Copy, PartialEq, Eq, Structural)]
pub enum TicketState {
    /// Registered; no verdict, deadline, or cancellation yet.
    Waiting,
    /// A verdict granted the request.
    Granted,
    /// A verdict denied the request.
    Denied,
    /// The deadline fired, or the channel reported expiry.
    Expired,
    /// The client cancelled while waiting.
    Cancelled,
}

impl TicketState {
    /// Whether this state is terminal: every state but `Waiting` is.
    pub open spec fn is_terminal(&self) -> bool {
        !(*self is Waiting)
    }
}

/// An event that can befall a ticket.
#[derive(Debug, Clone, Copy, PartialEq, Eq, Structural)]
pub enum TicketEvent {
    /// A verdict arrived on the approval channel.
    Deliver {
        /// The verdict delivered.
        verdict: Verdict,
    },
    /// The ticket's deadline fired.
    DeadlineFired,
    /// The client cancelled the request.
    Cancel,
}

/// How a ticket's state answers an event: a waiting ticket takes the
/// matching terminal state; a terminal state absorbs every event.
pub open spec fn spec_ticket_step(s: TicketState, ev: TicketEvent) -> TicketState {
    if s is Waiting {
        match ev {
            TicketEvent::Deliver { verdict } => match verdict {
                Verdict::Granted => TicketState::Granted,
                Verdict::Denied => TicketState::Denied,
                Verdict::Expired => TicketState::Expired,
            },
            TicketEvent::DeadlineFired => TicketState::Expired,
            TicketEvent::Cancel => TicketState::Cancelled,
        }
    } else {
        s
    }
}

/// The state a sequence of events leaves a ticket in.
pub open spec fn spec_ticket_run(s: TicketState, evs: Seq<TicketEvent>) -> TicketState
    decreases evs.len(),
{
    if evs.len() == 0 {
        s
    } else {
        spec_ticket_run(spec_ticket_step(s, evs[0]), evs.drop_first())
    }
}

/// A record of one in-flight approval request.
#[derive(Debug, Clone, PartialEq, Eq)]
pub struct ApprovalTicket {
    /// Globally unique, opaque task identifier.
    pub task_id: String,
    /// When the ticket was created, in milliseconds.
    pub created_at: u64,
    /// Absolute instant the approval must arrive by, in milliseconds.
    pub deadline: u64,
    /// Where the ticket stands in its lifecycle.
    pub state: TicketState,
}

impl ApprovalTicket {
    /// A fresh waiting ticket whose deadline is its creation instant plus
    /// the approval timeout, saturating at the end of the clock's range.
    pub fn new(task_id: String, created_at: u64, timeout: u64) -> (t: Self)
        ensures
            t == (ApprovalTicket {
                task_id,
                created_at,
                deadline: created_at.saturating_add(timeout),
                state: TicketState::Waiting,
            }),
    {
        let deadline = created_at.saturating_add(timeout);
        ApprovalTicket { task_id, created_at, deadline, state: TicketState::Waiting }
    }

    /// Delivers a verdict. The first delivery for a waiting ticket decides
    /// it and wins; anything later changes nothing. Returns whether this
    /// call won.
    pub fn deliver(&mut self, verdict: Verdict) -> (won: bool)
        ensures
            won == (old(self).state is Waiting),
            *final(self) == (ApprovalTicket {
                state: spec_ticket_step(old(self).state, TicketEvent::Deliver { verdict }),
                ..*old(self)
            }),
    {
        let won = matches!(self.state, TicketState::Waiting);
        if won {
            self.state = match verdict {
                Verdict::Granted => TicketState::Granted,
                Verdict::Denied => TicketState::Denied,
                Verdict::Expired => TicketState::Expired,
            };
        }
        won
    }

    /// Cancels the request. Only a waiting ticket moves to `Cancelled`;
    /// anything later changes nothing. Returns whether this call won.
    pub fn cancel(&mut self) -> (won: bool)
        ensures
            won == (old(self).state is Waiting),
            *final(self) == (ApprovalTicket {
                state: spec_ticket_step(old(self).state, TicketEvent::Cancel),
                ..*old(self)
            }),
    {
        let won = matches!(self.state, TicketState::Waiting);
        if won {
            self.state = TicketState::Cancelled;
        }
        won
    }

    /// Lets the deadline claim the ticket: a waiting ticket whose deadline
    /// has passed moves to `Expired`. Returns whether the deadline won.
    pub fn check_deadline(&mut self, now: u64) -> (fired: bool)
        ensures
            fired == (old(self).state is Waiting && now >= old(self).deadline),
            fired ==> *final(self) == (ApprovalTicket {
                state: spec_ticket_step(old(self).state, TicketEvent::DeadlineFired),
                ..*old(self)
            }),
            !fired ==> *final(self) == *old(self),
    {
        let fired = matches!(self.state, TicketState::Waiting) && now >= self.deadline;
        if fired {
            self.state = TicketState::Expired;
        }
        fired
    }
}

proof fn lemma_ticket_run_append(s: TicketState, a: Seq<TicketEvent>, b: Seq<TicketEvent>)
    ensures
        spec_ticket_run(s, a + b) == spec_ticket_run(spec_ticket_run(s, a), b),
    decreases a.len(),
{
    if a.len() == 0 {
        assert(a + b =~= b);
    } else {
        assert((a + b).drop_first() =~= a.drop_first() + b);
        lemma_ticket_run_append(spec_ticket_step(s, a[0]), a.drop_first(), b);
    }
}

/// Law: a terminal state is final. Once a ticket has left `Waiting`, no
/// sequence of events moves it again.
pub proof fn lemma_terminal_is_final(s: TicketState, evs: Seq<TicketEvent>)
    requires
        s.is_terminal(),
    ensures
        spec_ticket_run(s, evs) == s,
    decreases evs.len(),
{
    if evs.len() > 0 {
        lemma_terminal_is_final(spec_ticket_step(s, evs[0]), evs.drop_first());
    }
}

/// Law: exactly one terminal transition. Over any sequence of events, once
/// the state after some prefix is terminal, every longer prefix ends in
/// that same state: the first event to leave `Waiting` decides the ticket
/// and all later events are no-ops.
pub proof fn lemma_exactly_one_terminal(
    s: TicketState,
    evs: Seq<TicketEvent>,
    i: int,
    j: int,
)
    requires
        0 <= i <= j <= evs.len(),
        spec_ticket_run(s, evs.take(i)).is_terminal(),
    ensures
        spec_ticket_run(s, evs.take(j)) == spec_ticket_run(s, evs.take(i)),
{
    assert(evs.take(j) =~= evs.take(i) + evs.subrange(i, j));
    lemma_ticket_run_append(s, evs.take(i), evs.subrange(i, j));
    lemma_terminal_is_final(spec_ticket_run(s, evs.take(i)), evs.subrange(i, j));
}

/// Law: delivery is idempotent. The first verdict delivered to a waiting
/// ticket decides it; delivering again, with any verdict, changes nothing.
pub proof fn lemma_deliver_idempotent(s: TicketState, first: Verdict, again: Verdict)
    requires
        s is Waiting,
    ensures
        ({
            let decided = spec_ticket_step(s, TicketEvent::Deliver { verdict: first });
            spec_ticket_step(decided, TicketEvent::Deliver { verdict: again }) == decided
        }),
{
}

/// The position of the first ticket carrying `task_id`, if any.
pub open spec fn spec_find_ticket(tickets: Seq<ApprovalTicket>, task_id: Seq<char>) -> Option<int>
    decreases tickets.len(),
{
    if tickets.len() == 0 {
        None
    } else if tickets[0].task_id@ == task_id {
        Some(0int)
    } else {
        match spec_find_ticket(tickets.drop_first(), task_id) {
            Some(i) => Some(i + 1),
            None => None,
        }
    }
}

/// The approval coordinator's registry: the in-flight tickets, keyed by
/// their task identifiers.
#[derive(Debug, Clone)]
pub struct Coordinator {
    /// The registered tickets, in registration order.
    pub tickets: Vec<ApprovalTicket>,
}

impl Coordinator {
    /// No two registered tickets share a task identifier.
    pub open spec fn wf(&self) -> bool {
        forall|i: int, j: int| 0 <= i < j < self.tickets@.len() ==> (#[trigger] self.tickets@[i]).task_id@
            != (#[trigger] self.tickets@[j]).task_id@
    }

    /// An empty registry.
    pub fn new() -> (c: Self)
        ensures
            c.tickets@.len() == 0,
            c.wf(),
    {
        Coordinator { tickets: Vec::new() }
    }

    /// Finds the ticket carrying `task_id`.
    fn find(&self, task_id: &String) -> (r: Option<usize>)
        ensures
            r matches Some(u) ==> spec_find_ticket(self.tickets@, task_id@) == Some(u as int),
            r is None ==> spec_find_ticket(self.tickets@, task_id@) is None,
    {
        let n = self.tickets.len();
        let mut i: usize = 0;
        proof {
            assert(self.tickets@.skip(0) =~= self.tickets@);
        }
        while i < n
            invariant
                0 <= i <= n,
                n == self.tickets@.len(),
                forall|j: int| 0 <= j < i ==> (#[trigger] self.tickets@[j]).task_id@ != task_id@,
                spec_find_ticket(self.tickets@, task_id@) == match spec_find_ticket(
                    self.tickets@.skip(i as int), task_id@) {
                    Some(k) => Some(k + i),
                    None => None::<int>,
                },
            decreases n - i,
        {
            proof {
                assert(self.tickets@.skip(i as int)[0] == self.tickets@[i as int]);
                assert(self.tickets@.skip(i as int).drop_first() =~= self.tickets@.skip(i + 1));
            }
            if self.tickets[i].task_id.eq(task_id) {
                return Some(i);
            }
            i = i + 1;
        }
        proof {
            assert(self.tickets@.skip(n as int) =~= Seq::<ApprovalTicket>::empty());
        }
        None
    }

    /// Registers a ticket. A ticket whose task identifier is already
    /// registered is refused, and nothing changes.
    pub fn submit(&mut self, ticket: ApprovalTicket) -> (accepted: bool)
        requires
            old(self).wf(),
        ensures
            final(self).wf(),
            accepted == (spec_find_ticket(old(self).tickets@, ticket.task_id@) is None),
            accepted ==> final(self).tickets@ == old(self).tickets@.push(ticket),
            !accepted ==> *final(self) == *old(self),
    {
        proof {
            lemma_find_ticket_none_means_absent(self.tickets@, ticket.task_id@);
            lemma_find_ticket_some_in_range(self.tickets@, ticket.task_id@);
        }
        match self.find(&ticket.task_id) {
            Some(_) => false,
            None => {
                self.tickets.push(ticket);
                true
            },
        }
    }

    /// Delivers a verdict to the ticket carrying `task_id`. The first
    /// delivery to a waiting ticket decides it; an unknown identifier or a
    /// ticket already decided changes nothing. Returns whether this call
    /// decided a ticket.
    pub fn deliver(&mut self, task_id: &String, verdict: Verdict) -> (won: bool)
        requires
            old(self).wf(),
        ensures
            final(self).wf(),
            match spec_find_ticket(old(self).tickets@, task_id@) {
                Some(i) => {
                    &&& won == (old(self).tickets@[i].state is Waiting)
                    &&& final(self).tickets@ == old(self).tickets@.update(i, ApprovalTicket {
                        state: spec_ticket_step(old(self).tickets@[i].state, TicketEvent::Deliver {
                            verdict,
                        }),
                        ..old(self).tickets@[i]
                    })
                },
                None => !won && *final(self) == *old(self),
            },
    {
        proof {
            lemma_find_ticket_some_in_range(self.tickets@, task_id@);
        }
        match self.find(task_id) {
            Some(i) => {
                let ticket = &mut self.tickets[i];
                ticket.deliver(verdict)
            },
            None => false,
        }
    }

    /// Cancels the ticket carrying `task_id`, if it is still waiting.
    /// Returns whether this call decided a ticket.
    pub fn cancel(&mut self, task_id: &String) -> (won: bool)
        requires
            old(self).wf(),
        ensures
            final(self).wf(),
            match spec_find_ticket(old(self).tickets@, task_id@) {
                Some(i) => {
                    &&& won == (old(self).tickets@[i].state is Waiting)
                    &&& final(self).tickets@ == old(self).tickets@.update(i, ApprovalTicket {
                        state: spec_ticket_step(old(self).tickets@[i].state, TicketEvent::Cancel),
                        ..old(self).tickets@[i]
                    })
                },
                None => !won && *final(self) == *old(self),
            },
    {
        proof {
            lemma_find_ticket_some_in_range(self.tickets@, task_id@);
        }
        match self.find(task_id) {
            Some(i) => {
                let ticket = &mut self.tickets[i];
                ticket.cancel()
            },
            None => false,
        }
    }
}

/// A ticket after the deadline sweep visits it: a waiting ticket whose
/// deadline has passed is expired; everything else is untouched.
pub open spec fn spec_expire_ticket(t: ApprovalTicket, now: u64) -> ApprovalTicket {
    if t.state is Waiting && now >= t.deadline {
        ApprovalTicket { state: TicketState::Expired, ..t }
    } else {
        t
    }
}

impl Coordinator {
    /// Lets the clock claim every due ticket: each waiting ticket whose
    /// deadline has passed moves to `Expired`, so afterwards no ticket
    /// remains waiting past its deadline.
    pub fn expire_due(&mut self, now: u64)
        requires
            old(self).wf(),
        ensures
            final(self).wf(),
            final(self).tickets@ == old(self).tickets@.map_values(
                |t: ApprovalTicket| spec_expire_ticket(t, now)),
            forall|i: int| 0 <= i < final(self).tickets@.len() ==> ((#[trigger] final(
                self).tickets@[i]).state is Waiting ==> now < final(self).tickets@[i].deadline),
    {
        let n = self.tickets.len();
        let mut i: usize = 0;
        while i < n
            invariant
                0 <= i <= n,
                n == self.tickets@.len(),
                old(self).tickets@.len() == n,
                forall|j: int| 0 <= j < i ==> self.tickets@[j] == spec_expire_ticket(
                    #[trigger] old(self).tickets@[j], now),
                forall|j: int| i <= j < n ==> self.tickets@[j] == #[trigger] old(
                    self).tickets@[j],
            decreases n - i,
        {
            let ticket = &mut self.tickets[i];
            let _ = ticket.check_deadline(now);
            i = i + 1;
        }
        proof {
            assert(self.tickets@ =~= old(self).tickets@.map_values(
                |t: ApprovalTicket| spec_expire_ticket(t, now)));
            assert forall|a: int, b: int| 0 <= a < b < self.tickets@.len() implies (
            #[trigger] self.tickets@[a]).task_id@ != (#[trigger] self.tickets@[b]).task_id@ by {
                assert(self.tickets@[a].task_id == old(self).tickets@[a].task_id);
                assert(self.tickets@[b].task_id == old(self).tickets@[b].task_id);
            }
        }
    }
}

proof fn lemma_find_ticket_some_in_range(tickets: Seq<ApprovalTicket>, task_id: Seq<char>)
    ensures
        spec_find_ticket(tickets, task_id) matches Some(i) ==> 0 <= i < tickets.len()
            && tickets[i].task_id@ == task_id,
    decreases tickets.len(),
{
    if tickets.len() > 0 && tickets[0].task_id@ != task_id {
        lemma_find_ticket_none_means_absent(tickets.drop_first(), task_id);
        lemma_find_ticket_some_in_range(tickets.drop_first(), task_id);
    }
}

proof fn lemma_find_ticket_none_means_absent(tickets: Seq<ApprovalTicket>, task_id: Seq<char>)
    ensures
        spec_find_ticket(tickets, task_id) is None ==> forall|i: int| 0 <= i < tickets.len()
            ==> (#[trigger] tickets[i]).task_id@ != task_id,
    decreases tickets.len(),
{
    if tickets.len() > 0 && tickets[0].task_id@ != task_id {
        lemma_find_ticket_none_means_absent(tickets.drop_first(), task_id);
        if spec_find_ticket(tickets, task_id) is None {
            assert forall|i: int| 0 <= i < tickets.len() implies (#[trigger] tickets[i]).task_id@
                != task_id by {
                if i > 0 {
                    assert(tickets.drop_first()[i - 1] == tickets[i]);
                }
            }
        }
    }
}

} // verus!
