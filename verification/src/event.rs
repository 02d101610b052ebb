//! Plain values exchanged with the caller: interests, readiness events and
//! the failures of the operations the caller performs.

use vstd::prelude::*;

verus! {

/// What a coroutine waits for on a resource.
#[derive(Clone, Copy, Debug, PartialEq, Eq, Structural)]
pub enum Interest {
    Readable,
    Writable,
}

/// What the multiplexer reported about a resource.
#[derive(Clone, Copy, Debug, PartialEq, Eq, Structural)]
pub enum EventKind {
    Readable,
    Writable,
}

/// One readiness event: the token the resource was registered under, and what
/// became possible on it.
#[derive(Clone, Copy, Debug, PartialEq, Eq, Structural)]
pub struct Event {
    pub token: usize,
    pub kind: EventKind,
}

/// Why an operating-system call failed, as far as the caller could tell: the
/// OS error code, if there was one.
#[derive(Clone, Copy, Debug, PartialEq, Eq, Structural)]
pub struct OsFailure {
    pub code: Option<i32>,
}

/// The wait table has no free token.
#[derive(Clone, Copy, Debug, PartialEq, Eq, Structural)]
pub struct ResourceExhausted;

/// A wait could not be set up; the coroutine was not suspended.
#[derive(Clone, Copy, Debug, PartialEq, Eq, Structural)]
pub enum RegistrationError {
    /// No wait could be created: every token is taken.
    ResourceExhausted,
    /// The multiplexer rejected the registration.
    Rejected(OsFailure),
}

/// The multiplexer's poll failed; the drive loop gave up.
#[derive(Clone, Copy, Debug, PartialEq, Eq, Structural)]
pub struct PollError {
    pub cause: OsFailure,
}

} // verus!
