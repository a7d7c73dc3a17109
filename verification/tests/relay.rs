use umq::error::{Error, Outcome, QueueFault, Stage};
use umq::message::Message;
use umq::relay::{
    is_fatal_send_fault, tag, tag_rendered, tagged_message, Relay, RelayAction, RelayEvent,
    RelayPhase,
};
use umq::setup::{Setup, SetupEvent};

// The send loop of a worker that has opened its queue.
fn relay() -> Relay {
    let mut setup = Setup::new(String::from("/target"), None);
    setup.step(SetupEvent::Start);
    setup.step(SetupEvent::Opened);
    setup.relay().unwrap()
}

#[test]
fn tag_puts_the_marker_before_the_quoted_text() {
    assert_eq!(tag("hello"), "[bridged] \"hello\"");
    assert_eq!(tag(""), "[bridged] \"\"");
    assert_eq!(tag("two words"), "[bridged] \"two words\"");
}

#[test]
fn tag_escapes_as_debug_does() {
    assert_eq!(tag("say \"hi\""), "[bridged] \"say \\\"hi\\\"\"");
    assert_eq!(tag("a\nb"), "[bridged] \"a\\nb\"");
    assert_eq!(tag("back\\slash"), "[bridged] \"back\\\\slash\"");
    assert_eq!(tag("it's"), "[bridged] \"it's\"");
}

#[test]
fn tag_rendered_only_adds_the_marker() {
    assert_eq!(tag_rendered("\"x\""), "[bridged] \"x\"");
    assert_eq!(tag_rendered(""), "[bridged] ");
    assert_eq!(tag_rendered("plain"), "[bridged] plain");
}

#[test]
fn tagged_text_contains_plain_text() {
    for text in ["m1", "hello world", "caf\u{e9}", "1234567890"] {
        assert!(tag(text).contains(text));
        assert!(tag(text).starts_with("[bridged] "));
    }
}

#[test]
fn tagged_message_carries_the_tagged_bytes_at_priority_zero() {
    let m = tagged_message("m1");
    assert_eq!(m.data, b"[bridged] \"m1\"".to_vec());
    assert_eq!(m.priority, 0);
}

#[test]
fn fatal_and_passing_send_faults() {
    assert!(!is_fatal_send_fault(QueueFault::MessageTooLarge));
    assert!(!is_fatal_send_fault(QueueFault::Interrupted));
    assert!(is_fatal_send_fault(QueueFault::Other));
    assert!(is_fatal_send_fault(QueueFault::NotFound));
    assert!(is_fatal_send_fault(QueueFault::InvalidName));
    assert!(is_fatal_send_fault(QueueFault::AlreadyExists));
}

#[test]
fn relay_starts_by_pulling() {
    let mut r = relay();
    assert_eq!(r.phase(), RelayPhase::Idle);
    assert_eq!(r.step(RelayEvent::Start), Some(RelayAction::Pull));
    assert_eq!(r.phase(), RelayPhase::Pulling);
}

#[test]
fn relay_sends_tagged_messages_in_order() {
    let mut r = relay();
    r.step(RelayEvent::Start);
    let mut sent = Vec::new();
    for text in ["m1", "m2", "m3"] {
        match r.step(RelayEvent::Pulled(String::from(text))) {
            Some(RelayAction::Send(message)) => sent.push(message),
            other => panic!("unexpected {:?}", other),
        }
        assert_eq!(r.phase(), RelayPhase::Sending);
        assert_eq!(r.step(RelayEvent::Sent), Some(RelayAction::Pull));
    }
    assert_eq!(
        sent,
        vec![
            Message::new(b"[bridged] \"m1\"".to_vec(), 0),
            Message::new(b"[bridged] \"m2\"".to_vec(), 0),
            Message::new(b"[bridged] \"m3\"".to_vec(), 0),
        ]
    );
}

#[test]
fn closed_channel_ends_the_relay_normally() {
    let mut r = relay();
    r.step(RelayEvent::Start);
    assert_eq!(
        r.step(RelayEvent::ChannelClosed),
        Some(RelayAction::Stop(Outcome::ChannelClosed))
    );
    assert_eq!(r.phase(), RelayPhase::Finished);
    assert_eq!(r.step(RelayEvent::Pulled(String::from("late"))), None);
    assert_eq!(r.step(RelayEvent::Start), None);
    assert_eq!(r.phase(), RelayPhase::Finished);
}

#[test]
fn fatal_send_fault_ends_the_relay() {
    let mut r = relay();
    r.step(RelayEvent::Start);
    r.step(RelayEvent::Pulled(String::from("m1")));
    assert_eq!(
        r.step(RelayEvent::SendFailed(QueueFault::Other)),
        Some(RelayAction::Stop(Outcome::Failed(Error::QueueFailure(Stage::Send))))
    );
    assert_eq!(r.phase(), RelayPhase::Failed);
    assert_eq!(r.step(RelayEvent::Sent), None);
    assert_eq!(r.step(RelayEvent::Pulled(String::from("m2"))), None);
}

#[test]
fn oversized_message_is_given_up_and_the_relay_goes_on() {
    let mut r = relay();
    r.step(RelayEvent::Start);
    r.step(RelayEvent::Pulled(String::from("too long")));
    assert_eq!(
        r.step(RelayEvent::SendFailed(QueueFault::MessageTooLarge)),
        Some(RelayAction::Pull)
    );
    assert_eq!(r.phase(), RelayPhase::Pulling);
    assert_eq!(
        r.step(RelayEvent::Pulled(String::from("ok"))),
        Some(RelayAction::Send(Message::new(b"[bridged] \"ok\"".to_vec(), 0)))
    );
}

#[test]
fn relay_events_out_of_turn_change_nothing() {
    let mut r = relay();
    assert_eq!(r.step(RelayEvent::Sent), None);
    assert_eq!(r.step(RelayEvent::ChannelClosed), None);
    assert_eq!(r.step(RelayEvent::Pulled(String::from("x"))), None);
    assert_eq!(r.phase(), RelayPhase::Idle);
    r.step(RelayEvent::Start);
    assert_eq!(r.step(RelayEvent::Sent), None);
    assert_eq!(r.step(RelayEvent::SendFailed(QueueFault::Other)), None);
    assert_eq!(r.phase(), RelayPhase::Pulling);
    r.step(RelayEvent::Pulled(String::from("x")));
    assert_eq!(r.step(RelayEvent::ChannelClosed), None);
    assert_eq!(r.step(RelayEvent::Pulled(String::from("y"))), None);
    assert_eq!(r.phase(), RelayPhase::Sending);
}
