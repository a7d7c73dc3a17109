//! The bridge as a whole: two workers, one that receives from the source
//! queue and one that sends to the target queue, and what the two together
//! bring about.

use crate::error::{Error, Outcome};
use crate::message::{payload_text, text_message, MessageView};
use crate::poller::{
    all_text, deliveries, emitted, initial, lemma_delivery_order, lemma_steady_poll,
    received_texts, steady_events, taken, texts, EventView, PollerState,
};
use crate::relay::{
    lemma_relay_keeps_order, lemma_steady_relay, relay_pulled, relay_sent, steady_relay_events,
    tagged_messages, tagged_text, RelayEventView, RelayPhase,
};
use crate::setup::{open_target, setup_initial, Setup};
use vstd::prelude::*;

verus! {

/// One end of a bridge: the name of a queue and, where the queue lives in
/// another namespace, the process whose namespace that is.
#[derive(Debug, PartialEq, Eq)]
pub struct QueueRef {
    pub name: String,
    pub namespace: Option<i32>,
}

impl QueueRef {
    /// The end of a bridge at the queue `name`.
    pub fn new(name: String, namespace: Option<i32>) -> (end: QueueRef)
        ensures
            end.name == name,
            end.namespace == namespace,
    {
        QueueRef { name, namespace }
    }

    /// The worker that is to open this queue, before its first step.
    pub fn into_setup(self) -> (setup: Setup)
        ensures
            setup@ == setup_initial(open_target(self.name@, self.namespace)),
    {
        Setup::new(self.name, self.namespace)
    }
}

/// The result of a bridge whose workers ended with `receive` and `send`. The
/// bridge waits for the send worker, so a failure of that worker is the first
/// it sees; a failure of the receive worker alone closes the channel, ends
/// the send worker in the normal way, and is then the result.
pub open spec fn bridge_outcome(receive: Outcome, send: Outcome) -> Result<(), Error> {
    match send {
        Outcome::Failed(e) => Err(e),
        _ => match receive {
            Outcome::Failed(e) => Err(e),
            _ => Ok(()),
        },
    }
}

/// The result of a bridge whose workers ended with `receive` and `send`.
pub fn bridge_result(receive: Outcome, send: Outcome) -> (r: Result<(), Error>)
    ensures
        r == bridge_outcome(receive, send),
{
    match send {
        Outcome::Failed(e) => Err(e),
        _ => match receive {
            Outcome::Failed(e) => Err(e),
            _ => Ok(()),
        },
    }
}

/// A bridge keeps order and content from end to end. Let the receive worker
/// and the send worker each go through any run of events; if the channel
/// between them is in order, so that the send worker takes from it the texts
/// that the receive worker handed out, then the messages sent to the target
/// queue are the tagged forms of the texts taken from the source queue, one
/// for each and in the same order.
pub proof fn lemma_bridge_relays_in_order(
    receiving: PollerState,
    received: Seq<EventView>,
    sending: RelayPhase,
    sent: Seq<RelayEventView>,
)
    requires
        relay_pulled(sending, sent) == deliveries(emitted(receiving, received)),
    ensures
        relay_sent(sending, sent) == tagged_messages(received_texts(receiving, received)),
{
    lemma_delivery_order(receiving, received);
    lemma_relay_keeps_order(sending, sent);
}

/// What an undisturbed bridge sends to the target queue when the source
/// queue yields `payloads`: the receive worker hands the texts it takes to
/// the channel, and the send worker sends the tagged form of each.
pub open spec fn bridged(limit: Option<usize>, payloads: Seq<Seq<u8>>) -> Seq<MessageView> {
    relay_sent(
        RelayPhase::Idle,
        steady_relay_events(deliveries(emitted(initial(limit), steady_events(payloads)))),
    )
}

/// A bridge keeps the order of the source queue: the target queue is sent one
/// message for each message that the receive worker takes, in the same order,
/// and each is the tagged form of the text of the message it relays.
pub proof fn lemma_bridge_keeps_order(limit: Option<usize>, payloads: Seq<Seq<u8>>)
    requires
        all_text(payloads),
    ensures
        bridged(limit, payloads).len() == taken(limit, payloads.len()),
        forall|i: int|
            0 <= i < taken(limit, payloads.len()) ==> (#[trigger] bridged(limit, payloads)[i])
                == text_message(tagged_text(payload_text(payloads[i])->0)),
{
    let k = taken(limit, payloads.len());
    let delivered = deliveries(emitted(initial(limit), steady_events(payloads)));
    lemma_steady_poll(limit, payloads);
    assert(delivered == texts(payloads.take(k as int)));
    lemma_steady_relay(delivered);
    assert(bridged(limit, payloads) == tagged_messages(delivered));
}

} // verus!
