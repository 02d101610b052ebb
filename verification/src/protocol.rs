//! The exchange between the scheduler and the caller that performs its
//! outside work: what the scheduler asks for, and what the caller reports
//! back.

use vstd::prelude::*;
use crate::event::{Event, Interest, OsFailure, PollError, RegistrationError};
use crate::policy::Resumption;

verus! {

/// A registration the caller is to make with the multiplexer on behalf of a
/// wait that was just enrolled.
#[derive(Clone, Copy, Debug, PartialEq, Eq, Structural)]
pub struct Registration {
    /// The token to tag the resource with.
    pub token: usize,
    /// The raw descriptor of the resource.
    pub descriptor: i32,
    /// What to be notified of.
    pub interest: Interest,
    /// Whether the registration is to be consumed by its first delivery.
    pub oneshot: bool,
}

/// What a waiting coroutine does once the multiplexer has answered its
/// registration.
#[derive(Clone, Copy, Debug, PartialEq, Eq, Structural)]
pub enum WaitStep {
    /// The registration stands: suspend the coroutine until it is resumed.
    Suspend,
    /// The wait failed: return the error without suspending.
    Fail(RegistrationError),
}

/// How a resumed coroutine gave control back.
#[derive(Clone, Copy, Debug, PartialEq, Eq, Structural)]
pub enum ResumeOutcome {
    /// It suspended again or ran to its end.
    Returned,
    /// Resuming it reported a failure.
    Failed,
}

/// What the caller reports to the drive loop.
#[derive(Debug, PartialEq, Eq)]
pub enum Completion {
    /// The drive loop is being entered.
    Start,
    /// A poll returned these events, in the order the multiplexer gave them.
    Polled(Vec<Event>),
    /// A poll failed.
    PollFailed(OsFailure),
    /// The coroutine of the last `Resume` gave control back.
    Resumed(ResumeOutcome),
}

/// What the drive loop asks of the caller next.
#[derive(Clone, Copy, Debug, PartialEq, Eq)]
pub enum Directive {
    /// Block in the multiplexer's poll and report what it returned.
    Poll,
    /// Carry out this resumption and report how the coroutine came back.
    Resume(Resumption),
    /// Leave the drive loop with this result.
    Finish(Result<(), PollError>),
}

} // verus!
