//! The scheduler as a mathematical state machine.

use vstd::prelude::*;
use crate::event::{Event, PollError};
use crate::policy::{PendingWait, ReadinessPolicy, Resumption};
use crate::protocol::{Completion, Directive};

verus! {

/// The state of one scheduler: its policy, the waits pending under their
/// tokens, and the events of the last poll that are still to be dispatched.
pub struct Schedule {
    pub policy: ReadinessPolicy,
    pub capacity: nat,
    pub waits: Map<usize, PendingWait>,
    pub queue: Seq<Event>,
}

impl Schedule {
    /// Finitely many waits are pending, no more than the capacity.
    pub open spec fn wf(self) -> bool {
        &&& self.waits.dom().finite()
        &&& self.waits.dom().len() <= self.capacity
    }

    /// The number of pending waits.
    pub open spec fn pending(self) -> nat {
        self.waits.dom().len()
    }

    /// Whether an event for `token` is queued.
    pub open spec fn reported(self, token: usize) -> bool {
        exists|k: int| 0 <= k < self.queue.len() && (#[trigger] self.queue[k]).token == token
    }

    /// This state with `queue` as the events still to be dispatched.
    pub open spec fn with_queue(self, queue: Seq<Event>) -> Schedule {
        Schedule { policy: self.policy, capacity: self.capacity, waits: self.waits, queue }
    }

    /// This state with `wait` pending under `token`.
    pub open spec fn enroll(self, token: usize, wait: PendingWait) -> Schedule {
        Schedule {
            policy: self.policy,
            capacity: self.capacity,
            waits: self.waits.insert(token, wait),
            queue: self.queue,
        }
    }

    /// This state with nothing pending under `token`.
    pub open spec fn forget(self, token: usize) -> Schedule {
        Schedule {
            policy: self.policy,
            capacity: self.capacity,
            waits: self.waits.remove(token),
            queue: self.queue,
        }
    }

    /// Delivery of one readiness event for `token`: the wait pending under it,
    /// if there is one, leaves the table and is to be resumed.
    pub open spec fn deliver(self, token: usize) -> (Schedule, Option<Resumption>) {
        if self.waits.contains_key(token) {
            (self.forget(token), Some(self.policy.resumption(token, self.waits[token])))
        } else {
            (self, None)
        }
    }

    /// What the drive loop does between polls: it ends when nothing is
    /// pending, and polls otherwise.
    pub open spec fn verdict(self) -> Directive {
        if self.pending() == 0 {
            Directive::Finish(Ok(()))
        } else {
            Directive::Poll
        }
    }

    /// Dispatch up to the next resumption: events whose token has no pending
    /// wait are dropped; the first event that has one is delivered. With the
    /// queue used up, the verdict between polls is given.
    pub open spec fn advance(self) -> (Schedule, Directive)
        decreases self.queue.len(),
    {
        if self.queue.len() == 0 {
            (self, self.verdict())
        } else {
            let rest = self.with_queue(self.queue.drop_first());
            match rest.deliver(self.queue.first().token) {
                (next, Some(resumption)) => (next, Directive::Resume(resumption)),
                (_, None) => rest.advance(),
            }
        }
    }

    /// One step of the drive loop, from what the caller reports to what it is
    /// asked next.
    pub open spec fn step(self, completion: Completion) -> (Schedule, Directive) {
        match completion {
            Completion::Start => self.advance(),
            Completion::Polled(events) => self.with_queue(self.queue + events@).advance(),
            Completion::PollFailed(cause) => (self, Directive::Finish(Err(PollError { cause }))),
            Completion::Resumed(_) => self.advance(),
        }
    }

    /// The state after the drive loop has taken `completions` one by one, if no
    /// wait is enrolled in between.
    pub open spec fn after(self, completions: Seq<Completion>) -> Schedule
        decreases completions.len(),
    {
        if completions.len() == 0 {
            self
        } else {
            self.step(completions.first()).0.after(completions.drop_first())
        }
    }

    /// The directives that `completions`, taken one by one, are answered
    /// with, if no wait is enrolled in between.
    pub open spec fn trace(self, completions: Seq<Completion>) -> Seq<Directive>
        decreases completions.len(),
    {
        if completions.len() == 0 {
            Seq::empty()
        } else {
            let (next, directive) = self.step(completions.first());
            seq![directive] + next.trace(completions.drop_first())
        }
    }

    /// The resumptions that the queued events lead to, in order, if no wait is
    /// enrolled in between.
    pub open spec fn deliveries(self) -> Seq<Resumption>
        decreases self.queue.len(),
    {
        if self.queue.len() == 0 {
            Seq::empty()
        } else {
            let rest = self.with_queue(self.queue.drop_first());
            match rest.deliver(self.queue.first().token) {
                (next, Some(resumption)) => seq![resumption] + next.deliveries(),
                (_, None) => rest.deliveries(),
            }
        }
    }

    /// The state once every queued event has been dispatched, if no wait is
    /// enrolled in between.
    pub open spec fn settled(self) -> Schedule
        decreases self.queue.len(),
    {
        if self.queue.len() == 0 {
            self
        } else {
            self.with_queue(self.queue.drop_first()).deliver(self.queue.first().token).0.settled()
        }
    }
}

/// How many of `directives` are resumptions.
pub open spec fn resumptions_among(directives: Seq<Directive>) -> nat
    decreases directives.len(),
{
    if directives.len() == 0 {
        0
    } else {
        let rest = resumptions_among(directives.drop_first());
        if directives.first() is Resume {
            rest + 1
        } else {
            rest
        }
    }
}

} // verus!
