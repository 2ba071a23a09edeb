//! What can go wrong in a worker, and what the worker does about it.
//!
//! A worker that runs survives the failure of any single message and goes
//! on consuming. Only a connection that cannot be had and a setting that is
//! missing stop it.

use vstd::prelude::*;

verus! {

/// A failure, by where it arises.
#[derive(Clone, Copy, Debug, PartialEq, Eq, Structural)]
pub enum Failure {
    /// An attempt to connect was refused and the policy allows another.
    ConnectionRefused,
    /// Every attempt to connect was refused.
    ConnectionExhausted,
    /// A connection failed after it had stood.
    ConnectionLost,
    /// A message taken off a queue could not be decoded.
    Undecodable,
    /// A document did not pass the structural check.
    InvalidDocument,
    /// The relational store refused a document.
    InsertFailed,
    /// The completion callback could not be delivered.
    CallbackFailed,
    /// A setting that the worker needs is missing.
    Configuration,
}

/// What a worker does about a failure.
#[derive(Clone, Copy, Debug, PartialEq, Eq, Structural)]
pub enum Reaction {
    /// Wait and try again.
    RetryWithBackoff,
    /// Log it and acquire the connection anew.
    Reacquire,
    /// Log it and drop the message; nothing is forwarded and nothing retried.
    DropMessage,
    /// Tag the message and forward it, so that its job still counts the chunk.
    ForwardTagged,
    /// Downgrade the status of the chunk and go on to report it.
    DowngradeStatus,
    /// Log it; nothing is retried.
    LogOnly,
    /// Stop the worker.
    StopWorker,
}

impl Failure {
    pub open spec fn reaction(self) -> Reaction {
        match self {
            Failure::ConnectionRefused => Reaction::RetryWithBackoff,
            Failure::ConnectionExhausted => Reaction::StopWorker,
            Failure::ConnectionLost => Reaction::Reacquire,
            Failure::Undecodable => Reaction::DropMessage,
            Failure::InvalidDocument => Reaction::ForwardTagged,
            Failure::InsertFailed => Reaction::DowngradeStatus,
            Failure::CallbackFailed => Reaction::LogOnly,
            Failure::Configuration => Reaction::StopWorker,
        }
    }

    /// Whether the failure concerns one message only.
    pub open spec fn of_one_message(self) -> bool {
        self == Failure::Undecodable || self == Failure::InvalidDocument || self
            == Failure::InsertFailed || self == Failure::CallbackFailed
    }

    pub fn react(&self) -> (reaction: Reaction)
        ensures
            reaction == self.reaction(),
    {
        match self {
            Failure::ConnectionRefused => Reaction::RetryWithBackoff,
            Failure::ConnectionExhausted => Reaction::StopWorker,
            Failure::ConnectionLost => Reaction::Reacquire,
            Failure::Undecodable => Reaction::DropMessage,
            Failure::InvalidDocument => Reaction::ForwardTagged,
            Failure::InsertFailed => Reaction::DowngradeStatus,
            Failure::CallbackFailed => Reaction::LogOnly,
            Failure::Configuration => Reaction::StopWorker,
        }
    }

    pub fn is_fatal(&self) -> (fatal: bool)
        ensures
            fatal == (self.reaction() == Reaction::StopWorker),
    {
        match self {
            Failure::ConnectionExhausted => true,
            Failure::Configuration => true,
            _ => false,
        }
    }
}

/// No failure of a single message stops a worker, and the only failures that
/// do are an exhausted connector and a missing setting.
pub proof fn worker_survives_any_message(failure: Failure)
    ensures
        failure.of_one_message() ==> failure.reaction() != Reaction::StopWorker,
        failure.reaction() == Reaction::StopWorker <==> failure == Failure::ConnectionExhausted
            || failure == Failure::Configuration,
{
}

} // verus!
