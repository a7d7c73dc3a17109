//! The cancellable poll loop as a state machine.
//!
//! The caller owns the queue, the clock and the cancellation flag. It starts
//! a receive when told to, sleeps one tick while the receive is in flight,
//! and reports what happened; the poller decides what comes next.

use crate::error::{fault_error, Error, Outcome, QueueFault, Stage};
use crate::message::{decode_text, payload_text};
use vstd::prelude::*;

verus! {

/// The tick: how long the caller sleeps between two looks at the receive in
/// flight and the cancellation flag, in milliseconds.
pub const TICK_MILLIS: u64 = 100;

/// Where a poll loop stands.
#[derive(Clone, Copy, Debug, PartialEq, Eq, Structural)]
pub enum PollPhase {
    /// Nothing has been started.
    Idle,
    /// A receive is in flight.
    Receiving,
    /// A message has been handed out; the loop goes on unless the limit is
    /// reached.
    Delivered,
    /// Cancellation was seen; the receive in flight has been abandoned.
    Cancelled,
    /// A payload was not valid text.
    DecodeError,
    /// The queue reported a failure.
    QueueError,
}

/// What the caller reports to the poller.
#[derive(Debug, PartialEq, Eq)]
pub enum Event {
    /// The loop is to begin.
    Start,
    /// The receive was still in flight, a tick has been slept, and the
    /// cancellation flag read `cancelled` afterwards.
    Tick { cancelled: bool },
    /// The receive completed with this payload.
    Received(Vec<u8>),
    /// The receive failed.
    ReceiveFailed(QueueFault),
    /// The message handed out has been dealt with.
    Handled,
}

/// What the poller asks of the caller.
#[derive(Debug, PartialEq, Eq)]
pub enum Action {
    /// Start a receive, then watch it.
    Receive,
    /// Keep watching the receive in flight.
    Wait,
    /// Hand this text to the consumer, then report `Handled`.
    Deliver(String),
    /// End the loop.
    Stop(Outcome),
}

/// An event as contracts see it.
pub enum EventView {
    Start,
    Tick { cancelled: bool },
    Received(Seq<u8>),
    ReceiveFailed(QueueFault),
    Handled,
}

/// An action as contracts see it.
pub enum ActionView {
    Receive,
    Wait,
    Deliver(Seq<char>),
    Stop(Outcome),
}

impl View for Event {
    type V = EventView;

    open spec fn view(&self) -> EventView {
        match self {
            Event::Start => EventView::Start,
            Event::Tick { cancelled } => EventView::Tick { cancelled: *cancelled },
            Event::Received(data) => EventView::Received(data@),
            Event::ReceiveFailed(fault) => EventView::ReceiveFailed(*fault),
            Event::Handled => EventView::Handled,
        }
    }
}

impl View for Action {
    type V = ActionView;

    open spec fn view(&self) -> ActionView {
        match self {
            Action::Receive => ActionView::Receive,
            Action::Wait => ActionView::Wait,
            Action::Deliver(text) => ActionView::Deliver(text@),
            Action::Stop(outcome) => ActionView::Stop(*outcome),
        }
    }
}

/// The state of a poll loop: its phase, the limit it was given, and how many
/// messages it has handed out.
#[derive(Clone, Copy, Debug, PartialEq, Eq)]
pub struct PollerState {
    pub phase: PollPhase,
    pub limit: Option<usize>,
    pub delivered: usize,
}

/// The state of a loop that has not begun.
pub open spec fn initial(limit: Option<usize>) -> PollerState {
    PollerState { phase: PollPhase::Idle, limit, delivered: 0 }
}

/// Whether the limit, if there is one, has been reached.
pub open spec fn limit_reached(s: PollerState) -> bool {
    s.limit matches Some(n) && s.delivered >= n
}

/// The counter after one more message. It stops at the largest value it can
/// hold.
pub open spec fn counted(delivered: usize) -> usize {
    if delivered < usize::MAX {
        (delivered + 1) as usize
    } else {
        delivered
    }
}

/// The state `s` in another phase.
pub open spec fn in_phase(s: PollerState, phase: PollPhase) -> PollerState {
    PollerState { phase, limit: s.limit, delivered: s.delivered }
}

/// What an event does in a state: the next state and the action asked for,
/// or `None` where the state does not expect the event.
pub open spec fn transition(s: PollerState, e: EventView) -> Option<(PollerState, ActionView)> {
    match (s.phase, e) {
        (PollPhase::Idle, EventView::Start) => Some(
            (in_phase(s, PollPhase::Receiving), ActionView::Receive),
        ),
        (PollPhase::Receiving, EventView::Tick { cancelled }) => if cancelled {
            Some((in_phase(s, PollPhase::Cancelled), ActionView::Stop(Outcome::Cancelled)))
        } else {
            Some((s, ActionView::Wait))
        },
        (PollPhase::Receiving, EventView::Received(data)) => match payload_text(data) {
            Some(text) => Some(
                (
                    PollerState {
                        phase: PollPhase::Delivered,
                        limit: s.limit,
                        delivered: counted(s.delivered),
                    },
                    ActionView::Deliver(text),
                ),
            ),
            None => Some(
                (
                    in_phase(s, PollPhase::DecodeError),
                    ActionView::Stop(Outcome::Failed(Error::DecodeError)),
                ),
            ),
        },
        (PollPhase::Receiving, EventView::ReceiveFailed(fault)) => Some(
            (
                in_phase(s, PollPhase::QueueError),
                ActionView::Stop(Outcome::Failed(fault_error(Stage::Receive, fault))),
            ),
        ),
        (PollPhase::Delivered, EventView::Handled) => if limit_reached(s) {
            Some((s, ActionView::Stop(Outcome::LimitReached)))
        } else {
            Some((in_phase(s, PollPhase::Receiving), ActionView::Receive))
        },
        _ => None,
    }
}

/// A state from which the loop never moves again.
pub open spec fn terminal(s: PollerState) -> bool {
    ||| s.phase == PollPhase::Cancelled
    ||| s.phase == PollPhase::DecodeError
    ||| s.phase == PollPhase::QueueError
    ||| (s.phase == PollPhase::Delivered && limit_reached(s))
}

/// A poll loop.
#[derive(Debug, PartialEq, Eq)]
pub struct Poller {
    state: PollerState,
}

impl View for Poller {
    type V = PollerState;

    closed spec fn view(&self) -> PollerState {
        self.state
    }
}

impl Poller {
    /// A loop that has not begun, with an optional limit on the number of
    /// messages. Callers get theirs from a setup whose queue is open.
    pub(crate) fn idle(limit: Option<usize>) -> (p: Poller)
        ensures
            p@ == initial(limit),
    {
        Poller { state: PollerState { phase: PollPhase::Idle, limit, delivered: 0 } }
    }

    /// The phase the loop is in.
    pub fn phase(&self) -> (phase: PollPhase)
        ensures
            phase == self@.phase,
    {
        self.state.phase
    }

    /// The limit the loop was given.
    pub fn limit(&self) -> (limit: Option<usize>)
        ensures
            limit == self@.limit,
    {
        self.state.limit
    }

    /// The number of messages handed out so far.
    pub fn delivered(&self) -> (count: usize)
        ensures
            count == self@.delivered,
    {
        self.state.delivered
    }

    /// Whether the loop has come to its end.
    pub fn is_terminal(&self) -> (done: bool)
        ensures
            done == terminal(self@),
    {
        match self.state.phase {
            PollPhase::Cancelled => true,
            PollPhase::DecodeError => true,
            PollPhase::QueueError => true,
            PollPhase::Delivered => match self.state.limit {
                Some(n) => self.state.delivered >= n,
                None => false,
            },
            _ => false,
        }
    }

    /// Takes an event and says what to do next. An event that the current
    /// phase does not expect changes nothing and yields `None`.
    pub fn step(&mut self, event: Event) -> (r: Option<Action>)
        ensures
            match transition(old(self)@, event@) {
                Some((next, action)) => {
                    &&& final(self)@ == next
                    &&& r matches Some(a)
                    &&& a@ == action
                },
                None => final(self)@ == old(self)@ && r is None,
            },
    {
        match self.state.phase {
            PollPhase::Idle => match event {
                Event::Start => {
                    self.state.phase = PollPhase::Receiving;
                    Some(Action::Receive)
                },
                _ => None,
            },
            PollPhase::Receiving => match event {
                Event::Tick { cancelled } => {
                    if cancelled {
                        self.state.phase = PollPhase::Cancelled;
                        Some(Action::Stop(Outcome::Cancelled))
                    } else {
                        Some(Action::Wait)
                    }
                },
                Event::Received(data) => match decode_text(data) {
                    Ok(text) => {
                        self.state.phase = PollPhase::Delivered;
                        if self.state.delivered < usize::MAX {
                            self.state.delivered = self.state.delivered + 1;
                        }
                        Some(Action::Deliver(text))
                    },
                    Err(e) => {
                        self.state.phase = PollPhase::DecodeError;
                        Some(Action::Stop(Outcome::Failed(e)))
                    },
                },
                Event::ReceiveFailed(fault) => {
                    self.state.phase = PollPhase::QueueError;
                    Some(Action::Stop(Outcome::Failed(Error::from_fault(Stage::Receive, fault))))
                },
                _ => None,
            },
            PollPhase::Delivered => match event {
                Event::Handled => {
                    let reached = match self.state.limit {
                        Some(n) => self.state.delivered >= n,
                        None => false,
                    };
                    if reached {
                        Some(Action::Stop(Outcome::LimitReached))
                    } else {
                        self.state.phase = PollPhase::Receiving;
                        Some(Action::Receive)
                    }
                },
                _ => None,
            },
            _ => None,
        }
    }
}

/// The state after a run of events, each taken in its turn. An event out of
/// turn is passed over.
pub open spec fn run(s: PollerState, events: Seq<EventView>) -> PollerState
    decreases events.len(),
{
    if events.len() == 0 {
        s
    } else {
        let before = run(s, events.drop_last());
        match transition(before, events.last()) {
            Some((next, _)) => next,
            None => before,
        }
    }
}

/// The actions asked for along a run of events, in order.
pub open spec fn emitted(s: PollerState, events: Seq<EventView>) -> Seq<ActionView>
    decreases events.len(),
{
    if events.len() == 0 {
        Seq::empty()
    } else {
        let before = run(s, events.drop_last());
        match transition(before, events.last()) {
            Some((_, action)) => emitted(s, events.drop_last()).push(action),
            None => emitted(s, events.drop_last()),
        }
    }
}

/// The texts handed out by a sequence of actions, in order.
pub open spec fn deliveries(actions: Seq<ActionView>) -> Seq<Seq<char>>
    decreases actions.len(),
{
    if actions.len() == 0 {
        Seq::empty()
    } else {
        match actions.last() {
            ActionView::Deliver(text) => deliveries(actions.drop_last()).push(text),
            _ => deliveries(actions.drop_last()),
        }
    }
}

/// The number of receives that a sequence of actions starts.
pub open spec fn receives(actions: Seq<ActionView>) -> nat
    decreases actions.len(),
{
    if actions.len() == 0 {
        0
    } else {
        match actions.last() {
            ActionView::Receive => receives(actions.drop_last()) + 1,
            _ => receives(actions.drop_last()),
        }
    }
}

/// The number of messages that a loop with limit `limit` takes before it
/// stops: the limit itself, but one where the limit is zero, since the limit
/// is looked at only after a message.
pub open spec fn quota(limit: usize) -> nat {
    if limit == 0 {
        1
    } else {
        limit as nat
    }
}

/// Every payload is valid text.
pub open spec fn all_text(payloads: Seq<Seq<u8>>) -> bool {
    forall|i: int| 0 <= i < payloads.len() ==> (#[trigger] payload_text(payloads[i])) is Some
}

/// The texts of payloads that are all valid text.
pub open spec fn texts(payloads: Seq<Seq<u8>>) -> Seq<Seq<char>> {
    Seq::new(payloads.len(), |i: int| payload_text(payloads[i])->0)
}

/// The events of an undisturbed loop on a queue that yields `payloads`: the
/// start, then for each payload its arrival and the report that it was dealt
/// with.
pub open spec fn steady_events(payloads: Seq<Seq<u8>>) -> Seq<EventView>
    decreases payloads.len(),
{
    if payloads.len() == 0 {
        seq![EventView::Start]
    } else {
        steady_events(payloads.drop_last()).push(EventView::Received(payloads.last())).push(
            EventView::Handled,
        )
    }
}

/// How many of `available` messages a loop with the given limit takes.
pub open spec fn taken(limit: Option<usize>, available: nat) -> nat {
    match limit {
        Some(n) => if quota(n) < available {
            quota(n)
        } else {
            available
        },
        None => available,
    }
}

/// What one more action adds to the receives and the deliveries.
proof fn lemma_push_action(actions: Seq<ActionView>, action: ActionView)
    ensures
        receives(actions.push(action)) == receives(actions) + (if action is Receive {
            1nat
        } else {
            0nat
        }),
        deliveries(actions.push(action)) == (match action {
            ActionView::Deliver(text) => deliveries(actions).push(text),
            _ => deliveries(actions),
        }),
{
    assert(actions.push(action).drop_last() =~= actions);
}

/// What holds after every run of a loop with a limit.
proof fn lemma_limited_run(limit: usize, events: Seq<EventView>)
    ensures
        ({
            let s = run(initial(Some(limit)), events);
            let a = emitted(initial(Some(limit)), events);
            &&& s.limit == Some(limit)
            &&& deliveries(a).len() == s.delivered
            &&& s.delivered <= quota(limit)
            &&& match s.phase {
                PollPhase::Idle => s.delivered == 0 && receives(a) == 0,
                PollPhase::Delivered => s.delivered >= 1 && receives(a) == s.delivered,
                _ => s.delivered < quota(limit) && receives(a) == s.delivered + 1,
            }
        }),
    decreases events.len(),
{
    if events.len() > 0 {
        lemma_limited_run(limit, events.drop_last());
        let init = initial(Some(limit));
        let before = run(init, events.drop_last());
        match transition(before, events.last()) {
            Some((_, action)) => lemma_push_action(emitted(init, events.drop_last()), action),
            None => {},
        }
    }
}

/// A loop with a limit never starts more receives, and never hands out more
/// messages, than its quota, whatever is reported to it. With a limit of
/// `n >= 1` it therefore never takes message `n + 1` from the queue.
pub proof fn lemma_receives_bounded(limit: usize, events: Seq<EventView>)
    ensures
        receives(emitted(initial(Some(limit)), events)) <= quota(limit),
        deliveries(emitted(initial(Some(limit)), events)).len() <= quota(limit),
{
    lemma_limited_run(limit, events);
}

/// What holds after every undisturbed run.
proof fn lemma_steady_run(limit: Option<usize>, payloads: Seq<Seq<u8>>)
    requires
        all_text(payloads),
    ensures
        ({
            let s = run(initial(limit), steady_events(payloads));
            let a = emitted(initial(limit), steady_events(payloads));
            let k = taken(limit, payloads.len());
            let full = limit matches Some(n) && payloads.len() >= quota(n);
            &&& s.limit == limit
            &&& deliveries(a) == texts(payloads.take(k as int))
            &&& full ==> s.phase == PollPhase::Delivered && limit_reached(s) && receives(a) == k
            &&& !full ==> s.phase == PollPhase::Receiving && receives(a) == k + 1
            &&& !full && limit is Some ==> s.delivered == payloads.len()
        }),
    decreases payloads.len(),
{
    let init = initial(limit);
    if payloads.len() == 0 {
        let events = steady_events(payloads);
        assert(events.drop_last() =~= Seq::<EventView>::empty());
        assert(run(init, events.drop_last()) == init);
        assert(emitted(init, events.drop_last()) =~= Seq::<ActionView>::empty());
        assert(emitted(init, events) == Seq::<ActionView>::empty().push(ActionView::Receive));
        lemma_push_action(Seq::<ActionView>::empty(), ActionView::Receive);
        assert(deliveries(emitted(init, events)) =~= texts(payloads.take(0)));
    } else {
        let prev = payloads.drop_last();
        let p = payloads.last();
        assert(all_text(prev)) by {
            assert forall|i: int| 0 <= i < prev.len() implies (#[trigger] payload_text(
                prev[i],
            )) is Some by {
                assert(prev[i] == payloads[i]);
            }
        }
        lemma_steady_run(limit, prev);
        let e0 = steady_events(prev);
        let e1 = e0.push(EventView::Received(p));
        let e2 = e1.push(EventView::Handled);
        assert(steady_events(payloads) == e2);
        assert(e1.drop_last() =~= e0);
        assert(e2.drop_last() =~= e1);
        let s0 = run(init, e0);
        let a0 = emitted(init, e0);
        let s1 = run(init, e1);
        let a1 = emitted(init, e1);
        let s2 = run(init, e2);
        let a2 = emitted(init, e2);
        let k0 = taken(limit, prev.len());
        let k = taken(limit, payloads.len());
        assert(payload_text(payloads[payloads.len() - 1]) is Some);
        let was_full = limit matches Some(n) && prev.len() >= quota(n);
        if was_full {
            assert(transition(s0, EventView::Received(p)) is None);
            assert(s1 == s0 && a1 == a0);
            assert(a2 == a1.push(ActionView::Stop(Outcome::LimitReached)));
            lemma_push_action(a1, ActionView::Stop(Outcome::LimitReached));
            assert(k == k0);
            assert(payloads.take(k as int) =~= prev.take(k0 as int));
        } else {
            let text = payload_text(p)->0;
            assert(a1 == a0.push(ActionView::Deliver(text)));
            lemma_push_action(a0, ActionView::Deliver(text));
            assert(prev.take(k0 as int) =~= prev);
            assert(payloads.take(payloads.len() as int) =~= payloads);
            assert(texts(payloads) =~= texts(prev).push(text));
            assert(k == payloads.len());
            if limit_reached(s1) {
                assert(a2 == a1.push(ActionView::Stop(Outcome::LimitReached)));
                lemma_push_action(a1, ActionView::Stop(Outcome::LimitReached));
            } else {
                assert(a2 == a1.push(ActionView::Receive));
                lemma_push_action(a1, ActionView::Receive);
            }
        }
    }
}

/// An undisturbed loop hands out the texts of the payloads in the order in
/// which the queue yields them, and no more of them than its limit allows.
/// Where the queue yields at least as many as the quota, the loop ends there
/// and has started exactly that many receives: the next message stays in the
/// queue. Otherwise it has handed out all of them and waits for the next.
pub proof fn lemma_steady_poll(limit: Option<usize>, payloads: Seq<Seq<u8>>)
    requires
        all_text(payloads),
    ensures
        ({
            let s = run(initial(limit), steady_events(payloads));
            let a = emitted(initial(limit), steady_events(payloads));
            let k = taken(limit, payloads.len());
            let full = limit matches Some(n) && payloads.len() >= quota(n);
            &&& deliveries(a) == texts(payloads.take(k as int))
            &&& full ==> terminal(s) && receives(a) == k
            &&& !full ==> s.phase == PollPhase::Receiving && receives(a) == k + 1
        }),
{
    lemma_steady_run(limit, payloads);
}

/// A loop that has come to its end stays there: whatever is reported to it
/// afterwards, its state does not change, it starts no receive and hands out
/// nothing.
pub proof fn lemma_terminal_is_final(s: PollerState, events: Seq<EventView>)
    requires
        terminal(s),
    ensures
        run(s, events) == s,
        receives(emitted(s, events)) == 0,
        deliveries(emitted(s, events)).len() == 0,
    decreases events.len(),
{
    if events.len() > 0 {
        lemma_terminal_is_final(s, events.drop_last());
        match transition(s, events.last()) {
            Some((_, action)) => lemma_push_action(emitted(s, events.drop_last()), action),
            None => {},
        }
    }
}

/// Cancellation is obeyed at the first tick that sees the flag set: the loop
/// stops without waiting for the receive in flight, and nothing reported
/// afterwards starts it again.
pub proof fn lemma_cancellation_stops(s: PollerState, later: Seq<EventView>)
    requires
        s.phase == PollPhase::Receiving,
    ensures
        transition(s, EventView::Tick { cancelled: true }) == Some(
            (in_phase(s, PollPhase::Cancelled), ActionView::Stop(Outcome::Cancelled)),
        ),
        run(in_phase(s, PollPhase::Cancelled), later) == in_phase(s, PollPhase::Cancelled),
        receives(emitted(in_phase(s, PollPhase::Cancelled), later)) == 0,
        deliveries(emitted(in_phase(s, PollPhase::Cancelled), later)).len() == 0,
{
    lemma_terminal_is_final(in_phase(s, PollPhase::Cancelled), later);
}

/// The texts of the messages that the loop takes from the queue along a run
/// of events, in order: those of the payloads that arrive in their turn and
/// are valid text.
pub open spec fn received_texts(s: PollerState, events: Seq<EventView>) -> Seq<Seq<char>>
    decreases events.len(),
{
    if events.len() == 0 {
        Seq::empty()
    } else {
        let before = run(s, events.drop_last());
        match (before.phase, events.last()) {
            (PollPhase::Receiving, EventView::Received(data)) => match payload_text(data) {
                Some(text) => received_texts(s, events.drop_last()).push(text),
                None => received_texts(s, events.drop_last()),
            },
            _ => received_texts(s, events.drop_last()),
        }
    }
}

/// The order of delivery is the order of the queue: whatever is reported to
/// the loop, the texts it hands out are the texts of the messages it took
/// from the queue, one for each and in the order in which they arrived.
pub proof fn lemma_delivery_order(s: PollerState, events: Seq<EventView>)
    ensures
        deliveries(emitted(s, events)) == received_texts(s, events),
    decreases events.len(),
{
    if events.len() > 0 {
        lemma_delivery_order(s, events.drop_last());
        let before = run(s, events.drop_last());
        match transition(before, events.last()) {
            Some((_, action)) => lemma_push_action(emitted(s, events.drop_last()), action),
            None => {},
        }
    }
}

/// The number of times the queue handle comes back along a run of events:
/// once for each receive that is reported as completed or failed in its turn.
pub open spec fn handed_back(s: PollerState, events: Seq<EventView>) -> nat
    decreases events.len(),
{
    if events.len() == 0 {
        0
    } else {
        let before = run(s, events.drop_last());
        match (before.phase, events.last()) {
            (PollPhase::Receiving, EventView::Received(_)) => handed_back(s, events.drop_last())
                + 1,
            (PollPhase::Receiving, EventView::ReceiveFailed(_)) => handed_back(
                s,
                events.drop_last(),
            ) + 1,
            _ => handed_back(s, events.drop_last()),
        }
    }
}

/// The queue handle has one owner at a time: a receive is started only when
/// the handle of the one before has come back. Along any run, the receives
/// started are as many as the handles that came back, and one more exactly
/// while a receive is in flight or has been abandoned on cancellation.
pub proof fn lemma_one_receive_in_flight(limit: Option<usize>, events: Seq<EventView>)
    ensures
        ({
            let phase = run(initial(limit), events).phase;
            let started = receives(emitted(initial(limit), events));
            let back = handed_back(initial(limit), events);
            if phase == PollPhase::Receiving || phase == PollPhase::Cancelled {
                started == back + 1
            } else {
                started == back
            }
        }),
    decreases events.len(),
{
    if events.len() > 0 {
        lemma_one_receive_in_flight(limit, events.drop_last());
        let init = initial(limit);
        let before = run(init, events.drop_last());
        match transition(before, events.last()) {
            Some((_, action)) => lemma_push_action(emitted(init, events.drop_last()), action),
            None => {},
        }
    }
}

} // verus!
