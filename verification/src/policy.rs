//! Pending waits and the platform's readiness-delivery policy.

use vstd::prelude::*;

verus! {

/// One outstanding wait: the suspended coroutine and, where the platform needs
/// it for a manual deregistration, the raw descriptor it waits on.
#[derive(Clone, Copy, Debug, PartialEq, Eq, Structural)]
pub struct PendingWait {
    pub coroutine: u64,
    pub descriptor: Option<i32>,
}

/// What to do when the wait under `token` is delivered: deregister
/// `deregister`, if any, from the multiplexer, then resume `coroutine`.
#[derive(Clone, Copy, Debug, PartialEq, Eq, Structural)]
pub struct Resumption {
    pub token: usize,
    pub coroutine: u64,
    pub deregister: Option<i32>,
}

/// How the host's readiness model consumes a oneshot registration.
#[derive(Clone, Copy, Debug, PartialEq, Eq, Structural)]
pub enum ReadinessPolicy {
    /// A oneshot registration can still deliver again once the coroutine
    /// touches the resource, so the resource is deregistered, by its raw
    /// descriptor, before the coroutine is resumed.
    ManualDeregisterBeforeResume,
    /// The registration is consumed by its first delivery; nothing is to be
    /// done before the coroutine is resumed.
    NativeOneshot,
}

impl ReadinessPolicy {
    /// The record kept for a wait of `coroutine` on `descriptor`.
    pub open spec fn pending(self, coroutine: u64, descriptor: i32) -> PendingWait {
        PendingWait {
            coroutine,
            descriptor: match self {
                ReadinessPolicy::ManualDeregisterBeforeResume => Some(descriptor),
                ReadinessPolicy::NativeOneshot => None,
            },
        }
    }

    /// What delivering `wait`, pending under `token`, asks of the caller.
    pub open spec fn resumption(self, token: usize, wait: PendingWait) -> Resumption {
        Resumption {
            token,
            coroutine: wait.coroutine,
            deregister: match self {
                ReadinessPolicy::ManualDeregisterBeforeResume => wait.descriptor,
                ReadinessPolicy::NativeOneshot => None,
            },
        }
    }

    /// Builds the record for a oneshot wait. The descriptor is kept only where
    /// it will be needed to deregister the resource by hand.
    pub fn register_oneshot(&self, coroutine: u64, descriptor: i32) -> (wait: PendingWait)
        ensures
            wait == self.pending(coroutine, descriptor),
    {
        match self {
            ReadinessPolicy::ManualDeregisterBeforeResume => PendingWait {
                coroutine,
                descriptor: Some(descriptor),
            },
            ReadinessPolicy::NativeOneshot => PendingWait { coroutine, descriptor: None },
        }
    }

    /// Says what has to happen before and at the resumption of a delivered
    /// wait.
    pub fn prepare_for_resume(&self, token: usize, wait: PendingWait) -> (resumption: Resumption)
        ensures
            resumption == self.resumption(token, wait),
    {
        match self {
            ReadinessPolicy::ManualDeregisterBeforeResume => Resumption {
                token,
                coroutine: wait.coroutine,
                deregister: wait.descriptor,
            },
            ReadinessPolicy::NativeOneshot => Resumption {
                token,
                coroutine: wait.coroutine,
                deregister: None,
            },
        }
    }
}

} // verus!
