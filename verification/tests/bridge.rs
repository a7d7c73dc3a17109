use umq::bridge::{bridge_result, QueueRef};
use umq::error::{Error, Outcome, Stage};
use umq::message::Message;
use umq::poller::{Action, Event};
use umq::relay::{RelayAction, RelayEvent};
use umq::setup::{SetupAction, SetupEvent, SetupPhase};

// Runs both workers of a bridge over queues held in memory.
fn run_bridge(source: Vec<Vec<u8>>, limit: Option<usize>) -> (Vec<Message>, usize, Outcome, Outcome) {
    let mut receive_setup = QueueRef::new(String::from("/source"), None).into_setup();
    let mut send_setup = QueueRef::new(String::from("/target"), None).into_setup();
    for setup in [&mut receive_setup, &mut send_setup] {
        assert!(matches!(setup.step(SetupEvent::Start), Some(SetupAction::Open(_))));
        assert_eq!(setup.step(SetupEvent::Opened), Some(SetupAction::Proceed));
    }
    let mut poller = receive_setup.poller(limit).unwrap();
    let mut relay = send_setup.relay().unwrap();

    let mut channel = Vec::new();
    let mut taken = 0;
    let mut action = poller.step(Event::Start);
    let receive_outcome = loop {
        match action {
            Some(Action::Receive) => {
                if taken == source.len() {
                    // Nothing is left: the user stops the bridge.
                    action = poller.step(Event::Tick { cancelled: true });
                } else {
                    action = poller.step(Event::Received(source[taken].clone()));
                    taken += 1;
                }
            }
            Some(Action::Deliver(text)) => {
                channel.push(text);
                action = poller.step(Event::Handled);
            }
            Some(Action::Stop(outcome)) => break outcome,
            other => panic!("unexpected {:?}", other),
        }
    };

    let mut target = Vec::new();
    let mut pending = channel.into_iter();
    let mut action = relay.step(RelayEvent::Start);
    let send_outcome = loop {
        match action {
            Some(RelayAction::Pull) => {
                action = match pending.next() {
                    Some(text) => relay.step(RelayEvent::Pulled(text)),
                    None => relay.step(RelayEvent::ChannelClosed),
                };
            }
            Some(RelayAction::Send(message)) => {
                target.push(message);
                action = relay.step(RelayEvent::Sent);
            }
            Some(RelayAction::Stop(outcome)) => break outcome,
            None => panic!("event out of turn"),
        }
    };
    (target, taken, receive_outcome, send_outcome)
}

fn payloads(texts: &[&str]) -> Vec<Vec<u8>> {
    texts.iter().map(|t| t.as_bytes().to_vec()).collect()
}

#[test]
fn bridge_preserves_order() {
    let (target, taken, receive, send) = run_bridge(payloads(&["m1", "m2", "m3"]), None);
    assert_eq!(
        target,
        vec![
            Message::new(b"[bridged] \"m1\"".to_vec(), 0),
            Message::new(b"[bridged] \"m2\"".to_vec(), 0),
            Message::new(b"[bridged] \"m3\"".to_vec(), 0),
        ]
    );
    assert_eq!(taken, 3);
    assert_eq!(receive, Outcome::Cancelled);
    assert_eq!(send, Outcome::ChannelClosed);
    assert_eq!(bridge_result(receive, send), Ok(()));
}

#[test]
fn bridge_preserves_content() {
    let texts = ["plain", "with space", "caf\u{e9}", "0123456789"];
    let (target, _, _, _) = run_bridge(payloads(&texts), None);
    assert_eq!(target.len(), texts.len());
    for (message, text) in target.into_iter().zip(texts) {
        let body = message.into_text().unwrap();
        assert!(body.starts_with("[bridged] "));
        assert!(body.contains(text));
    }
}

#[test]
fn bridge_with_limit_leaves_the_rest_in_the_source_queue() {
    let (target, taken, receive, send) =
        run_bridge(payloads(&["m1", "m2", "m3", "m4", "m5"]), Some(2));
    assert_eq!(
        target,
        vec![
            Message::new(b"[bridged] \"m1\"".to_vec(), 0),
            Message::new(b"[bridged] \"m2\"".to_vec(), 0),
        ]
    );
    assert_eq!(taken, 2);
    assert_eq!(receive, Outcome::LimitReached);
    assert_eq!(send, Outcome::ChannelClosed);
}

#[test]
fn bridge_stops_at_a_payload_that_is_not_text() {
    let source = vec![b"m1".to_vec(), vec![0xff], b"m3".to_vec()];
    let (target, taken, receive, send) = run_bridge(source, None);
    assert_eq!(target, vec![Message::new(b"[bridged] \"m1\"".to_vec(), 0)]);
    assert_eq!(taken, 2);
    assert_eq!(receive, Outcome::Failed(Error::DecodeError));
    assert_eq!(bridge_result(receive, send), Err(Error::DecodeError));
}

#[test]
fn bridge_result_is_the_first_failure_seen() {
    let send_failure = Outcome::Failed(Error::QueueFailure(Stage::Send));
    let receive_failure = Outcome::Failed(Error::JoinRejected);
    assert_eq!(bridge_result(Outcome::Cancelled, Outcome::ChannelClosed), Ok(()));
    assert_eq!(bridge_result(Outcome::LimitReached, Outcome::ChannelClosed), Ok(()));
    assert_eq!(
        bridge_result(receive_failure, Outcome::ChannelClosed),
        Err(Error::JoinRejected)
    );
    assert_eq!(
        bridge_result(Outcome::Cancelled, send_failure),
        Err(Error::QueueFailure(Stage::Send))
    );
    assert_eq!(
        bridge_result(receive_failure, send_failure),
        Err(Error::QueueFailure(Stage::Send))
    );
}

#[test]
fn queue_ref_becomes_a_setup_that_has_not_begun() {
    let end = QueueRef::new(String::from("/q"), Some(12));
    assert_eq!(end.name, "/q");
    assert_eq!(end.namespace, Some(12));
    let setup = end.into_setup();
    assert_eq!(setup.phase(), SetupPhase::Idle);
}
