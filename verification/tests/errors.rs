use umq::error::{Error, Outcome, QueueFault, Stage};

#[test]
fn every_error_has_its_stage() {
    assert_eq!(Error::InvalidName.stage(), Stage::Open);
    assert_eq!(Error::QueueNotFound.stage(), Stage::Open);
    assert_eq!(Error::QueueAlreadyExists.stage(), Stage::Open);
    assert_eq!(Error::NamespaceUnavailable.stage(), Stage::Join);
    assert_eq!(Error::JoinRejected.stage(), Stage::Join);
    assert_eq!(Error::CapabilityDropFailed.stage(), Stage::CapabilityDrop);
    assert_eq!(Error::DecodeError.stage(), Stage::Receive);
    assert_eq!(Error::QueueFailure(Stage::Send).stage(), Stage::Send);
    assert_eq!(Error::QueueFailure(Stage::Receive).stage(), Stage::Receive);
}

#[test]
fn diagnostics_name_the_stage_that_failed() {
    assert_eq!(Error::InvalidName.diagnostic(), "open: invalid queue name");
    assert_eq!(Error::QueueNotFound.diagnostic(), "open: queue not found");
    assert_eq!(Error::QueueAlreadyExists.diagnostic(), "open: queue already exists");
    assert_eq!(Error::NamespaceUnavailable.diagnostic(), "join: namespace unavailable");
    assert_eq!(Error::JoinRejected.diagnostic(), "join: join rejected");
    assert_eq!(
        Error::CapabilityDropFailed.diagnostic(),
        "capability drop: capability drop failed"
    );
    assert_eq!(Error::DecodeError.diagnostic(), "receive: payload is not valid text");
    assert_eq!(Error::QueueFailure(Stage::Send).diagnostic(), "send: queue failure");
    assert_eq!(Error::QueueFailure(Stage::Receive).diagnostic(), "receive: queue failure");
    assert_eq!(Error::QueueFailure(Stage::Open).diagnostic(), "open: queue failure");
}

#[test]
fn stage_labels() {
    assert_eq!(Stage::Join.label(), "join");
    assert_eq!(Stage::CapabilityDrop.label(), "capability drop");
    assert_eq!(Stage::Open.label(), "open");
    assert_eq!(Stage::Send.label(), "send");
    assert_eq!(Stage::Receive.label(), "receive");
}

#[test]
fn faults_become_errors_of_the_taxonomy() {
    assert_eq!(Error::from_fault(Stage::Open, QueueFault::InvalidName), Error::InvalidName);
    assert_eq!(Error::from_fault(Stage::Open, QueueFault::NotFound), Error::QueueNotFound);
    assert_eq!(
        Error::from_fault(Stage::Open, QueueFault::AlreadyExists),
        Error::QueueAlreadyExists
    );
    assert_eq!(
        Error::from_fault(Stage::Send, QueueFault::MessageTooLarge),
        Error::QueueFailure(Stage::Send)
    );
    assert_eq!(
        Error::from_fault(Stage::Receive, QueueFault::Interrupted),
        Error::QueueFailure(Stage::Receive)
    );
    assert_eq!(
        Error::from_fault(Stage::Open, QueueFault::Other),
        Error::QueueFailure(Stage::Open)
    );
}

#[test]
fn only_a_failure_is_an_error() {
    assert_eq!(Outcome::LimitReached.into_result(), Ok(()));
    assert_eq!(Outcome::Cancelled.into_result(), Ok(()));
    assert_eq!(Outcome::ChannelClosed.into_result(), Ok(()));
    assert_eq!(
        Outcome::Failed(Error::DecodeError).into_result(),
        Err(Error::DecodeError)
    );
}
