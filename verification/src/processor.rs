//! The per-thread scheduler: it issues tokens to waiting coroutines and turns
//! readiness events into resumptions.
//!
//! A `Processor` never blocks, polls or switches coroutines itself. The
//! caller does that work and drives the `Processor` with its outcomes:
//! `wait_event` and `registered` on the side of a coroutine that wants to
//! wait, `run` on the side of the drive loop.

use vstd::prelude::*;
use crate::event::{Event, EventKind, Interest, OsFailure, PollError, RegistrationError,
    ResourceExhausted};
use crate::policy::{PendingWait, ReadinessPolicy, Resumption};
use crate::protocol::{Completion, Directive, Registration, WaitStep};
use crate::schedule::Schedule;
use crate::wait_table::{WaitTable, MAX_CAPACITY};

verus! {

/// The number of waits a `Processor` made by `Processor::new` has room for.
pub const DEFAULT_CAPACITY: usize = 1024;

/// The receiver of readiness events: the wait table and the policy by which
/// a delivered wait is resumed.
pub struct IoHandler {
    slabs: WaitTable,
    policy: ReadinessPolicy,
}

impl View for IoHandler {
    type V = Schedule;

    /// The handler's state, with no event queued.
    closed spec fn view(&self) -> Schedule {
        Schedule {
            policy: self.policy,
            capacity: self.slabs.limit(),
            waits: self.slabs@,
            queue: Seq::empty(),
        }
    }
}

impl IoHandler {
    /// The wait table is consistent.
    pub closed spec fn wf(&self) -> bool {
        self.slabs.wf()
    }

    /// A consistent handler has a consistent state and holds no events.
    pub proof fn lemma_wf(&self)
        requires
            self.wf(),
        ensures
            self@.wf(),
            self@.capacity <= MAX_CAPACITY,
            self@.queue == Seq::<Event>::empty(),
            forall|token: usize| self@.waits.contains_key(token) ==> token < self@.capacity,
    {
        self.slabs.lemma_wf();
    }

    /// A handler with room for `size` waits and none pending.
    pub fn new(size: usize, policy: ReadinessPolicy) -> (handler: IoHandler)
        requires
            size <= MAX_CAPACITY,
        ensures
            handler.wf(),
            handler@ == (Schedule {
                policy,
                capacity: size as nat,
                waits: Map::empty(),
                queue: Seq::empty(),
            }),
    {
        IoHandler { slabs: WaitTable::new(size), policy }
    }

    /// Stores a oneshot wait of `coroutine` on `descriptor` under a token that
    /// was free, and returns the token. Fails, changing nothing, exactly when
    /// as many waits are pending as the handler has room for.
    pub fn enroll(&mut self, coroutine: u64, descriptor: i32) -> (r: Result<usize, ResourceExhausted>)
        requires
            old(self).wf(),
        ensures
            final(self).wf(),
            r is Ok <==> old(self)@.pending() < old(self)@.capacity,
            match r {
                Ok(token) => {
                    &&& token < old(self)@.capacity
                    &&& !old(self)@.waits.contains_key(token)
                    &&& final(self)@ == old(self)@.enroll(
                        token,
                        old(self)@.policy.pending(coroutine, descriptor),
                    )
                },
                Err(_) => final(self)@ == old(self)@,
            },
    {
        let wait = self.policy.register_oneshot(coroutine, descriptor);
        self.slabs.insert(wait)
    }

    /// The number of pending waits.
    pub fn count(&self) -> (n: usize)
        requires
            self.wf(),
        ensures
            n == self@.pending(),
    {
        self.slabs.count()
    }

    /// The resource under `token` became readable: the wait pending under the
    /// token, if any, is taken out of the table and is to be resumed. A token
    /// with no pending wait is ignored.
    pub fn readable(&mut self, token: usize) -> (resumption: Option<Resumption>)
        requires
            old(self).wf(),
        ensures
            final(self).wf(),
            (final(self)@, resumption) == old(self)@.deliver(token),
    {
        self.ready(token)
    }

    /// The resource under `token` became writable: the wait pending under the
    /// token, if any, is taken out of the table and is to be resumed. A token
    /// with no pending wait is ignored.
    pub fn writable(&mut self, token: usize) -> (resumption: Option<Resumption>)
        requires
            old(self).wf(),
        ensures
            final(self).wf(),
            (final(self)@, resumption) == old(self)@.deliver(token),
    {
        self.ready(token)
    }

    fn ready(&mut self, token: usize) -> (resumption: Option<Resumption>)
        requires
            old(self).wf(),
        ensures
            final(self).wf(),
            (final(self)@, resumption) == old(self)@.deliver(token),
    {
        match self.slabs.remove(token) {
            Some(wait) => Some(self.policy.prepare_for_resume(token, wait)),
            None => {
                assert(self.slabs@ =~= old(self).slabs@);
                None
            },
        }
    }
}

/// The scheduler of one OS thread.
pub struct Processor {
    handler: IoHandler,
    batch: Vec<Event>,
    cursor: usize,
}

impl View for Processor {
    type V = Schedule;

    /// The scheduler's state: the handler's, with the events of the current
    /// batch that are not dispatched yet.
    closed spec fn view(&self) -> Schedule {
        self.handler@.with_queue(self.batch@.subrange(self.cursor as int, self.batch@.len() as int))
    }
}

impl Processor {
    /// The handler is consistent and the cursor lies within the batch.
    pub closed spec fn wf(&self) -> bool {
        &&& self.handler.wf()
        &&& self.cursor <= self.batch@.len()
    }

    /// A consistent scheduler has a consistent state.
    pub proof fn lemma_wf(&self)
        requires
            self.wf(),
        ensures
            self@.wf(),
            self@.capacity <= MAX_CAPACITY,
            forall|token: usize| self@.waits.contains_key(token) ==> token < self@.capacity,
    {
        self.handler.lemma_wf();
    }

    /// A scheduler with room for `DEFAULT_CAPACITY` waits, none pending and
    /// no event queued.
    pub fn new(policy: ReadinessPolicy) -> (processor: Processor)
        ensures
            processor.wf(),
            processor@ == (Schedule {
                policy,
                capacity: DEFAULT_CAPACITY as nat,
                waits: Map::empty(),
                queue: Seq::empty(),
            }),
    {
        Processor::with_capacity(DEFAULT_CAPACITY, policy)
    }

    /// A scheduler with room for `capacity` waits, none pending and no event
    /// queued.
    pub fn with_capacity(capacity: usize, policy: ReadinessPolicy) -> (processor: Processor)
        requires
            capacity <= MAX_CAPACITY,
        ensures
            processor.wf(),
            processor@ == (Schedule {
                policy,
                capacity: capacity as nat,
                waits: Map::empty(),
                queue: Seq::empty(),
            }),
    {
        let processor = Processor { handler: IoHandler::new(capacity, policy), batch: Vec::new(), cursor: 0 };
        assert(processor@.queue =~= Seq::<Event>::empty());
        processor
    }

    /// Enrolls a wait of `coroutine` for `interest` on the resource with the
    /// raw descriptor `descriptor`.
    ///
    /// With a token free, the wait is stored under it and the registration
    /// to make with the multiplexer is returned; the multiplexer's answer then
    /// goes to `registered`. With every token taken nothing changes and the
    /// wait fails.
    pub fn wait_event(&mut self, coroutine: u64, descriptor: i32, interest: Interest) -> (r: Result<
        Registration,
        RegistrationError,
    >)
        requires
            old(self).wf(),
        ensures
            final(self).wf(),
            r is Ok <==> old(self)@.pending() < old(self)@.capacity,
            match r {
                Ok(registration) => {
                    &&& registration.token < old(self)@.capacity
                    &&& !old(self)@.waits.contains_key(registration.token)
                    &&& final(self)@ == old(self)@.enroll(
                        registration.token,
                        old(self)@.policy.pending(coroutine, descriptor),
                    )
                    &&& registration.descriptor == descriptor
                    &&& registration.interest == interest
                    &&& registration.oneshot
                },
                Err(error) => {
                    &&& error == RegistrationError::ResourceExhausted
                    &&& final(self)@ == old(self)@
                },
            },
    {
        match self.handler.enroll(coroutine, descriptor) {
            Ok(token) => Ok(Registration { token, descriptor, interest, oneshot: true }),
            Err(_) => Err(RegistrationError::ResourceExhausted),
        }
    }

    /// Takes the multiplexer's answer to the registration made for `token`.
    ///
    /// A registration that stands means the coroutine suspends now. One that
    /// was rejected means the wait is over before it began: its record leaves
    /// the table and the coroutine gets the error without suspending.
    pub fn registered(&mut self, token: usize, outcome: Result<(), OsFailure>) -> (step: WaitStep)
        requires
            old(self).wf(),
        ensures
            final(self).wf(),
            step is Suspend <==> outcome is Ok,
            match outcome {
                Ok(_) => step == WaitStep::Suspend && final(self)@ == old(self)@,
                Err(cause) => {
                    &&& step == WaitStep::Fail(RegistrationError::Rejected(cause))
                    &&& final(self)@ == old(self)@.forget(token)
                },
            },
    {
        match outcome {
            Ok(_) => WaitStep::Suspend,
            Err(cause) => {
                let _ = self.handler.slabs.remove(token);
                WaitStep::Fail(RegistrationError::Rejected(cause))
            },
        }
    }

    /// One step of the drive loop: takes what the caller reports and says
    /// what it is to do next.
    ///
    /// Entering the loop, or coming back from a resumption, dispatches the
    /// queued events up to the next one whose token has a pending wait; that
    /// wait leaves the table and is to be resumed. A failed resumption is not
    /// an error of the loop. With no event left, the loop ends if no wait is
    /// pending and asks for a poll otherwise. A poll's events are queued
    /// behind those still waiting and dispatched in order; a failed poll ends
    /// the loop with the failure.
    pub fn run(&mut self, completion: Completion) -> (directive: Directive)
        requires
            old(self).wf(),
        ensures
            final(self).wf(),
            (final(self)@, directive) == old(self)@.step(completion),
    {
        match completion {
            Completion::Start => self.advance(),
            Completion::Resumed(_) => self.advance(),
            Completion::PollFailed(cause) => Directive::Finish(Err(PollError { cause })),
            Completion::Polled(events) => {
                let mut events = events;
                if self.cursor >= self.batch.len() {
                    self.batch = events;
                    self.cursor = 0;
                    assert(self@.queue =~= old(self)@.queue + events@);
                } else {
                    let ghost fresh = events@;
                    self.batch.append(&mut events);
                    assert(self@.queue =~= old(self)@.queue + fresh);
                }
                self.advance()
            },
        }
    }

    /// The number of pending waits.
    pub fn pending(&self) -> (n: usize)
        requires
            self.wf(),
        ensures
            n == self@.pending(),
    {
        self.handler.count()
    }

    /// The number of waits the scheduler has room for.
    pub fn capacity(&self) -> (n: usize)
        ensures
            n == self@.capacity,
    {
        self.handler.slabs.capacity()
    }

    /// The readiness policy the scheduler was made with.
    pub fn policy(&self) -> (policy: ReadinessPolicy)
        ensures
            policy == self@.policy,
    {
        self.handler.policy
    }

    fn advance(&mut self) -> (directive: Directive)
        requires
            old(self).wf(),
        ensures
            final(self).wf(),
            (final(self)@, directive) == old(self)@.advance(),
    {
        while self.cursor < self.batch.len()
            invariant
                self.wf(),
                self@.advance() == old(self)@.advance(),
            decreases self.batch.len() - self.cursor,
        {
            let ghost before = self@;
            let event = self.batch[self.cursor];
            self.cursor = self.cursor + 1;
            assert(self@.queue =~= before.queue.drop_first());
            let delivered = match event.kind {
                EventKind::Readable => self.handler.readable(event.token),
                EventKind::Writable => self.handler.writable(event.token),
            };
            match delivered {
                Some(resumption) => {
                    return Directive::Resume(resumption);
                },
                None => {},
            }
        }
        let ghost exhausted = self@;
        assert(exhausted.queue.len() == 0);
        self.batch.clear();
        self.cursor = 0;
        assert(self@.queue =~= exhausted.queue);
        if self.handler.count() == 0 {
            Directive::Finish(Ok(()))
        } else {
            Directive::Poll
        }
    }
}

} // verus!
