//! The failures a worker can end with, and the stage each belongs to.

use vstd::prelude::*;
use vstd::string::StringExecFns;

verus! {

/// The stage of a worker's life in which a failure happened.
#[derive(Clone, Copy, Debug, PartialEq, Eq, Structural)]
pub enum Stage {
    /// Joining the namespace of another process.
    Join,
    /// Giving up the administrative capability.
    CapabilityDrop,
    /// Opening or creating the queue.
    Open,
    /// Sending a message to the queue.
    Send,
    /// Receiving a message from the queue.
    Receive,
}

/// What the queue layer reported when an operation on a queue failed.
#[derive(Clone, Copy, Debug, PartialEq, Eq, Structural)]
pub enum QueueFault {
    /// The queue identifier is malformed.
    InvalidName,
    /// No queue of that name exists.
    NotFound,
    /// A queue of that name exists already.
    AlreadyExists,
    /// The message is larger than the queue accepts.
    MessageTooLarge,
    /// A signal interrupted the call.
    Interrupted,
    /// Anything else: the descriptor is invalid, access is denied, a system
    /// limit is reached.
    Other,
}

/// A failure that ends a worker.
#[derive(Clone, Copy, Debug, PartialEq, Eq, Structural)]
pub enum Error {
    /// The queue identifier is malformed.
    InvalidName,
    /// The queue to open does not exist.
    QueueNotFound,
    /// The queue to create exists already.
    QueueAlreadyExists,
    /// The namespace reference of the target process cannot be opened.
    NamespaceUnavailable,
    /// The kernel refused to associate the thread with the namespace.
    JoinRejected,
    /// The administrative capability could not be removed.
    CapabilityDropFailed,
    /// A payload is not valid UTF-8 text.
    DecodeError,
    /// Any other failure of the queue layer, with the stage it happened in.
    QueueFailure(Stage),
}

/// How a worker's loop ended.
#[derive(Clone, Copy, Debug, PartialEq, Eq, Structural)]
pub enum Outcome {
    /// The limit of messages was reached.
    LimitReached,
    /// The user asked to stop.
    Cancelled,
    /// The producer ended and the channel was drained.
    ChannelClosed,
    /// The loop failed.
    Failed(Error),
}

/// The result of a loop that ended with `outcome`. Only a failure is an
/// error: reaching the limit, cancellation and a closed channel are each a
/// normal end.
pub open spec fn outcome_result(outcome: Outcome) -> Result<(), Error> {
    match outcome {
        Outcome::Failed(e) => Err(e),
        _ => Ok(()),
    }
}

/// The stage that an error belongs to.
pub open spec fn stage_of(e: Error) -> Stage {
    match e {
        Error::InvalidName => Stage::Open,
        Error::QueueNotFound => Stage::Open,
        Error::QueueAlreadyExists => Stage::Open,
        Error::NamespaceUnavailable => Stage::Join,
        Error::JoinRejected => Stage::Join,
        Error::CapabilityDropFailed => Stage::CapabilityDrop,
        Error::DecodeError => Stage::Receive,
        Error::QueueFailure(stage) => stage,
    }
}

/// The error that a worker ends with when the queue layer reports `fault`
/// during `stage`.
pub open spec fn fault_error(stage: Stage, fault: QueueFault) -> Error {
    match fault {
        QueueFault::InvalidName => Error::InvalidName,
        QueueFault::NotFound => Error::QueueNotFound,
        QueueFault::AlreadyExists => Error::QueueAlreadyExists,
        _ => Error::QueueFailure(stage),
    }
}

/// The word that names a stage in a diagnostic.
pub open spec fn stage_label(stage: Stage) -> Seq<char> {
    match stage {
        Stage::Join => "join"@,
        Stage::CapabilityDrop => "capability drop"@,
        Stage::Open => "open"@,
        Stage::Send => "send"@,
        Stage::Receive => "receive"@,
    }
}

/// What a diagnostic says after the stage.
pub open spec fn error_detail(e: Error) -> Seq<char> {
    match e {
        Error::InvalidName => "invalid queue name"@,
        Error::QueueNotFound => "queue not found"@,
        Error::QueueAlreadyExists => "queue already exists"@,
        Error::NamespaceUnavailable => "namespace unavailable"@,
        Error::JoinRejected => "join rejected"@,
        Error::CapabilityDropFailed => "capability drop failed"@,
        Error::DecodeError => "payload is not valid text"@,
        Error::QueueFailure(_) => "queue failure"@,
    }
}

/// The diagnostic for an error: the stage that failed, a colon and a space,
/// then what went wrong.
pub open spec fn diagnostic_text(e: Error) -> Seq<char> {
    stage_label(stage_of(e)) + ": "@ + error_detail(e)
}

impl Stage {
    /// The word that names this stage in a diagnostic.
    pub fn label(&self) -> (s: &'static str)
        ensures
            s@ == stage_label(*self),
    {
        match self {
            Stage::Join => "join",
            Stage::CapabilityDrop => "capability drop",
            Stage::Open => "open",
            Stage::Send => "send",
            Stage::Receive => "receive",
        }
    }
}

impl Outcome {
    /// The result of a loop that ended this way.
    pub fn into_result(self) -> (r: Result<(), Error>)
        ensures
            r == outcome_result(self),
    {
        match self {
            Outcome::Failed(e) => Err(e),
            _ => Ok(()),
        }
    }
}

impl Error {
    /// The error for a fault that the queue layer reported during `stage`.
    pub fn from_fault(stage: Stage, fault: QueueFault) -> (e: Error)
        ensures
            e == fault_error(stage, fault),
    {
        match fault {
            QueueFault::InvalidName => Error::InvalidName,
            QueueFault::NotFound => Error::QueueNotFound,
            QueueFault::AlreadyExists => Error::QueueAlreadyExists,
            _ => Error::QueueFailure(stage),
        }
    }

    /// The stage in which this error happened.
    pub fn stage(&self) -> (s: Stage)
        ensures
            s == stage_of(*self),
    {
        match self {
            Error::InvalidName => Stage::Open,
            Error::QueueNotFound => Stage::Open,
            Error::QueueAlreadyExists => Stage::Open,
            Error::NamespaceUnavailable => Stage::Join,
            Error::JoinRejected => Stage::Join,
            Error::CapabilityDropFailed => Stage::CapabilityDrop,
            Error::DecodeError => Stage::Receive,
            Error::QueueFailure(stage) => *stage,
        }
    }

    /// What went wrong, without the stage.
    pub fn detail(&self) -> (s: &'static str)
        ensures
            s@ == error_detail(*self),
    {
        match self {
            Error::InvalidName => "invalid queue name",
            Error::QueueNotFound => "queue not found",
            Error::QueueAlreadyExists => "queue already exists",
            Error::NamespaceUnavailable => "namespace unavailable",
            Error::JoinRejected => "join rejected",
            Error::CapabilityDropFailed => "capability drop failed",
            Error::DecodeError => "payload is not valid text",
            Error::QueueFailure(_) => "queue failure",
        }
    }

    /// The diagnostic to print when a worker ends with this error. It names
    /// the stage that failed.
    pub fn diagnostic(&self) -> (s: String)
        ensures
            s@ == diagnostic_text(*self),
    {
        let mut s = String::from_str(self.stage().label());
        s.append(": ");
        s.append(self.detail());
        s
    }
}

} // verus!
