//! The send side of the bridge: tagging relayed text and the loop that
//! drains the channel into the target queue.

use crate::error::{fault_error, Error, Outcome, QueueFault, Stage};
use crate::message::{text_message, Message, MessageView};
use vstd::prelude::*;
use vstd::string::StringExecFns;

verus! {

/// The marker that every relayed message begins with.
pub open spec fn marker() -> Seq<char> {
    "[bridged] "@
}

/// The `Debug` rendering that std gives a string, as `{:?}` formats it.
/// Nothing is stated of it here but that it depends on the text alone.
pub uninterp spec fn debug_rendering(text: Seq<char>) -> Seq<char>;

/// `format!("{:?}", text)` of std: the result is the `Debug` rendering of the
/// text.
#[verifier::external_body]
fn render_debug(text: &str) -> (rendered: String)
    ensures
        rendered@ == debug_rendering(text@),
{
    format!("{:?}", text)
}

/// The body of the message that relays `text`: the marker, then the `Debug`
/// rendering of the text.
pub open spec fn tagged_text(text: Seq<char>) -> Seq<char> {
    marker() + debug_rendering(text)
}

/// Puts the marker in front of a rendering.
pub fn tag_rendered(rendered: &str) -> (tagged: String)
    ensures
        tagged@ == marker() + rendered@,
{
    let mut tagged = String::from_str("[bridged] ");
    tagged.append(rendered);
    tagged
}

/// The body of the message that relays `text`.
pub fn tag(text: &str) -> (tagged: String)
    ensures
        tagged@ == tagged_text(text@),
{
    let rendered = render_debug(text);
    tag_rendered(rendered.as_str())
}

/// The message that relays `text` to the target queue: the tagged text, at
/// priority 0.
pub fn tagged_message(text: &str) -> (m: Message)
    ensures
        m@ == text_message(tagged_text(text@)),
{
    let tagged = tag(text);
    Message::from_text(tagged.as_str())
}

/// Whether `piece` occurs in `whole` as a run of consecutive characters.
pub open spec fn occurs_in(piece: Seq<char>, whole: Seq<char>) -> bool {
    exists|k: int|
        0 <= k && k + piece.len() <= whole.len() && #[trigger] whole.subrange(
            k,
            k + piece.len(),
        ) == piece
}

/// The tagged text is the marker followed by the whole rendering, so every
/// run of characters that occurs in the rendering of a text occurs in its
/// tagged text too.
pub proof fn lemma_tag_keeps_rendering(text: Seq<char>, piece: Seq<char>)
    ensures
        tagged_text(text).subrange(0, marker().len() as int) == marker(),
        tagged_text(text).subrange(marker().len() as int, tagged_text(text).len() as int)
            == debug_rendering(text),
        occurs_in(piece, debug_rendering(text)) ==> occurs_in(piece, tagged_text(text)),
{
    let rendering = debug_rendering(text);
    let whole = tagged_text(text);
    let m = marker().len() as int;
    assert(whole.subrange(0, m) =~= marker());
    assert(whole.subrange(m, whole.len() as int) =~= rendering);
    if occurs_in(piece, rendering) {
        let k = choose|k: int|
            0 <= k && k + piece.len() <= rendering.len() && #[trigger] rendering.subrange(
                k,
                k + piece.len(),
            ) == piece;
        assert(whole.subrange(m + k, m + k + piece.len()) =~= rendering.subrange(
            k,
            k + piece.len(),
        ));
    }
}

/// Relaying keeps the content of every text that its rendering keeps: where
/// the `Debug` rendering of a text holds the text as it is, the tagged text
/// holds it too.
pub proof fn lemma_tag_keeps_text(text: Seq<char>)
    requires
        occurs_in(text, debug_rendering(text)),
    ensures
        occurs_in(text, tagged_text(text)),
{
    lemma_tag_keeps_rendering(text, text);
}

/// Where the send loop stands.
#[derive(Clone, Copy, Debug, PartialEq, Eq, Structural)]
pub enum RelayPhase {
    /// Nothing has been started.
    Idle,
    /// The loop waits for the next text from the channel.
    Pulling,
    /// A message is on its way to the target queue.
    Sending,
    /// The channel was closed and drained.
    Finished,
    /// A send failed for good.
    Failed,
}

/// What the caller reports to the send loop.
#[derive(Debug, PartialEq, Eq)]
pub enum RelayEvent {
    /// The loop is to begin.
    Start,
    /// The channel yielded this text.
    Pulled(String),
    /// The channel is closed: the producer has ended.
    ChannelClosed,
    /// The message was sent.
    Sent,
    /// The send failed.
    SendFailed(QueueFault),
}

/// What the send loop asks of the caller.
#[derive(Debug, PartialEq, Eq)]
pub enum RelayAction {
    /// Take the next text from the channel.
    Pull,
    /// Send this message to the target queue.
    Send(Message),
    /// End the loop.
    Stop(Outcome),
}

/// An event of the send loop as contracts see it.
pub enum RelayEventView {
    Start,
    Pulled(Seq<char>),
    ChannelClosed,
    Sent,
    SendFailed(QueueFault),
}

/// An action of the send loop as contracts see it.
pub enum RelayActionView {
    Pull,
    Send(MessageView),
    Stop(Outcome),
}

impl View for RelayEvent {
    type V = RelayEventView;

    open spec fn view(&self) -> RelayEventView {
        match self {
            RelayEvent::Start => RelayEventView::Start,
            RelayEvent::Pulled(text) => RelayEventView::Pulled(text@),
            RelayEvent::ChannelClosed => RelayEventView::ChannelClosed,
            RelayEvent::Sent => RelayEventView::Sent,
            RelayEvent::SendFailed(fault) => RelayEventView::SendFailed(*fault),
        }
    }
}

impl View for RelayAction {
    type V = RelayActionView;

    open spec fn view(&self) -> RelayActionView {
        match self {
            RelayAction::Pull => RelayActionView::Pull,
            RelayAction::Send(message) => RelayActionView::Send(message@),
            RelayAction::Stop(outcome) => RelayActionView::Stop(*outcome),
        }
    }
}

/// Whether a failed send ends the loop. A message that is too large for the
/// queue, or a call that a signal interrupted, costs one message and the loop
/// goes on; after any other fault the queue cannot be used any more.
pub open spec fn send_fault_is_fatal(fault: QueueFault) -> bool {
    fault != QueueFault::MessageTooLarge && fault != QueueFault::Interrupted
}

/// What an event does in a phase of the send loop: the next phase and the
/// action asked for, or `None` where the phase does not expect the event.
pub open spec fn relay_transition(phase: RelayPhase, e: RelayEventView) -> Option<
    (RelayPhase, RelayActionView),
> {
    match (phase, e) {
        (RelayPhase::Idle, RelayEventView::Start) => Some(
            (RelayPhase::Pulling, RelayActionView::Pull),
        ),
        (RelayPhase::Pulling, RelayEventView::Pulled(text)) => Some(
            (RelayPhase::Sending, RelayActionView::Send(text_message(tagged_text(text)))),
        ),
        (RelayPhase::Pulling, RelayEventView::ChannelClosed) => Some(
            (RelayPhase::Finished, RelayActionView::Stop(Outcome::ChannelClosed)),
        ),
        (RelayPhase::Sending, RelayEventView::Sent) => Some(
            (RelayPhase::Pulling, RelayActionView::Pull),
        ),
        (RelayPhase::Sending, RelayEventView::SendFailed(fault)) => if send_fault_is_fatal(
            fault,
        ) {
            Some(
                (
                    RelayPhase::Failed,
                    RelayActionView::Stop(Outcome::Failed(fault_error(Stage::Send, fault))),
                ),
            )
        } else {
            Some((RelayPhase::Pulling, RelayActionView::Pull))
        },
        _ => None,
    }
}

/// Whether a failed send ends the loop.
pub fn is_fatal_send_fault(fault: QueueFault) -> (fatal: bool)
    ensures
        fatal == send_fault_is_fatal(fault),
{
    match fault {
        QueueFault::MessageTooLarge => false,
        QueueFault::Interrupted => false,
        _ => true,
    }
}

/// The send loop of a bridge.
#[derive(Debug, PartialEq, Eq)]
pub struct Relay {
    phase: RelayPhase,
}

impl View for Relay {
    type V = RelayPhase;

    closed spec fn view(&self) -> RelayPhase {
        self.phase
    }
}

impl Relay {
    /// A send loop that has not begun. Callers get theirs from a setup whose
    /// queue is open.
    pub(crate) fn idle() -> (relay: Relay)
        ensures
            relay@ == RelayPhase::Idle,
    {
        Relay { phase: RelayPhase::Idle }
    }

    /// The phase the loop is in.
    pub fn phase(&self) -> (phase: RelayPhase)
        ensures
            phase == self@,
    {
        self.phase
    }

    /// Takes an event and says what to do next. An event that the current
    /// phase does not expect changes nothing and yields `None`.
    pub fn step(&mut self, event: RelayEvent) -> (r: Option<RelayAction>)
        ensures
            match relay_transition(old(self)@, event@) {
                Some((next, action)) => {
                    &&& final(self)@ == next
                    &&& r matches Some(a)
                    &&& a@ == action
                },
                None => final(self)@ == old(self)@ && r is None,
            },
    {
        match self.phase {
            RelayPhase::Idle => match event {
                RelayEvent::Start => {
                    self.phase = RelayPhase::Pulling;
                    Some(RelayAction::Pull)
                },
                _ => None,
            },
            RelayPhase::Pulling => match event {
                RelayEvent::Pulled(text) => {
                    self.phase = RelayPhase::Sending;
                    Some(RelayAction::Send(tagged_message(text.as_str())))
                },
                RelayEvent::ChannelClosed => {
                    self.phase = RelayPhase::Finished;
                    Some(RelayAction::Stop(Outcome::ChannelClosed))
                },
                _ => None,
            },
            RelayPhase::Sending => match event {
                RelayEvent::Sent => {
                    self.phase = RelayPhase::Pulling;
                    Some(RelayAction::Pull)
                },
                RelayEvent::SendFailed(fault) => {
                    if is_fatal_send_fault(fault) {
                        self.phase = RelayPhase::Failed;
                        Some(
                            RelayAction::Stop(
                                Outcome::Failed(Error::from_fault(Stage::Send, fault)),
                            ),
                        )
                    } else {
                        self.phase = RelayPhase::Pulling;
                        Some(RelayAction::Pull)
                    }
                },
                _ => None,
            },
            _ => None,
        }
    }
}

/// The phase after a run of events, each taken in its turn. An event out of
/// turn is passed over.
pub open spec fn relay_run(phase: RelayPhase, events: Seq<RelayEventView>) -> RelayPhase
    decreases events.len(),
{
    if events.len() == 0 {
        phase
    } else {
        let before = relay_run(phase, events.drop_last());
        match relay_transition(before, events.last()) {
            Some((next, _)) => next,
            None => before,
        }
    }
}

/// The messages that the loop asks to send along a run of events, in order.
pub open spec fn relay_sent(phase: RelayPhase, events: Seq<RelayEventView>) -> Seq<MessageView>
    decreases events.len(),
{
    if events.len() == 0 {
        Seq::empty()
    } else {
        let before = relay_run(phase, events.drop_last());
        match relay_transition(before, events.last()) {
            Some((_, RelayActionView::Send(message))) => relay_sent(
                phase,
                events.drop_last(),
            ).push(message),
            _ => relay_sent(phase, events.drop_last()),
        }
    }
}

/// The texts that the loop takes from the channel along a run of events, in
/// order: those of the `Pulled` events that come in their turn.
pub open spec fn relay_pulled(phase: RelayPhase, events: Seq<RelayEventView>) -> Seq<Seq<char>>
    decreases events.len(),
{
    if events.len() == 0 {
        Seq::empty()
    } else {
        let before = relay_run(phase, events.drop_last());
        match (before, events.last()) {
            (RelayPhase::Pulling, RelayEventView::Pulled(text)) => relay_pulled(
                phase,
                events.drop_last(),
            ).push(text),
            _ => relay_pulled(phase, events.drop_last()),
        }
    }
}

/// The messages that relay `texts`, one for each and in the same order.
pub open spec fn tagged_messages(texts: Seq<Seq<char>>) -> Seq<MessageView> {
    Seq::new(texts.len(), |i: int| text_message(tagged_text(texts[i])))
}

/// The send loop keeps order and content: whatever is reported to it, the
/// messages it asks to send are the tagged forms of the texts it took from
/// the channel, one for each and in the order in which it took them.
pub proof fn lemma_relay_keeps_order(phase: RelayPhase, events: Seq<RelayEventView>)
    ensures
        relay_sent(phase, events) == tagged_messages(relay_pulled(phase, events)),
    decreases events.len(),
{
    if events.len() == 0 {
        assert(relay_sent(phase, events) =~= tagged_messages(relay_pulled(phase, events)));
    } else {
        lemma_relay_keeps_order(phase, events.drop_last());
        assert(relay_sent(phase, events) =~= tagged_messages(relay_pulled(phase, events)));
    }
}

/// The events of an undisturbed send loop on a channel that yields `texts`:
/// the start, then for each text its arrival and the report that its message
/// was sent.
pub open spec fn steady_relay_events(texts: Seq<Seq<char>>) -> Seq<RelayEventView>
    decreases texts.len(),
{
    if texts.len() == 0 {
        seq![RelayEventView::Start]
    } else {
        steady_relay_events(texts.drop_last()).push(RelayEventView::Pulled(texts.last())).push(
            RelayEventView::Sent,
        )
    }
}

/// An undisturbed send loop takes every text that the channel yields, in
/// order, sends the tagged form of each, and then waits for the next.
pub proof fn lemma_steady_relay(texts: Seq<Seq<char>>)
    ensures
        relay_run(RelayPhase::Idle, steady_relay_events(texts)) == RelayPhase::Pulling,
        relay_pulled(RelayPhase::Idle, steady_relay_events(texts)) == texts,
        relay_sent(RelayPhase::Idle, steady_relay_events(texts)) == tagged_messages(texts),
    decreases texts.len(),
{
    let idle = RelayPhase::Idle;
    let events = steady_relay_events(texts);
    if texts.len() == 0 {
        assert(events.drop_last() =~= Seq::<RelayEventView>::empty());
        assert(relay_run(idle, events.drop_last()) == idle);
        assert(relay_pulled(idle, events.drop_last()) =~= Seq::<Seq<char>>::empty());
        assert(relay_pulled(idle, events) =~= texts);
    } else {
        let e0 = steady_relay_events(texts.drop_last());
        let e1 = e0.push(RelayEventView::Pulled(texts.last()));
        assert(events == e1.push(RelayEventView::Sent));
        assert(e1.drop_last() =~= e0);
        assert(events.drop_last() =~= e1);
        lemma_steady_relay(texts.drop_last());
        assert(relay_run(idle, e1) == RelayPhase::Sending);
        assert(relay_pulled(idle, e1) =~= texts);
        assert(relay_pulled(idle, events) =~= texts);
    }
    lemma_relay_keeps_order(idle, events);
}

/// A send loop that has come to its end stays there: once the channel is
/// closed or a send has failed for good, nothing more is sent, whatever is
/// reported afterwards.
pub proof fn lemma_relay_end_is_final(phase: RelayPhase, events: Seq<RelayEventView>)
    requires
        phase == RelayPhase::Finished || phase == RelayPhase::Failed,
    ensures
        relay_run(phase, events) == phase,
        relay_sent(phase, events) == Seq::<MessageView>::empty(),
    decreases events.len(),
{
    if events.len() > 0 {
        lemma_relay_end_is_final(phase, events.drop_last());
    }
}

} // verus!
