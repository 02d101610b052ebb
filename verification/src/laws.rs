//! What holds of the scheduler whatever it is fed. Each statement is about
//! the state machine of `Schedule`, which is what `Processor::run`,
//! `IoHandler::readable` and `IoHandler::writable` are specified by.

use vstd::prelude::*;
use crate::event::Event;
use crate::policy::Resumption;
use crate::protocol::{Completion, Directive};
use crate::schedule::{resumptions_among, Schedule};

verus! {

/// Everything the batch lemmas below rest on, proved in one induction over
/// the queue.
proof fn lemma_batch(s: Schedule)
    ensures
        s.settled().queue.len() == 0,
        s.settled().policy == s.policy,
        s.settled().capacity == s.capacity,
        forall|t: usize| #[trigger]
            s.settled().waits.contains_key(t) <==> s.waits.contains_key(t) && !s.reported(t),
        forall|t: usize| #[trigger]
            s.settled().waits.contains_key(t) ==> s.settled().waits[t] == s.waits[t],
        forall|i: int|
            0 <= i < s.deliveries().len() ==> {
                let r = #[trigger] s.deliveries()[i];
                &&& s.waits.contains_key(r.token)
                &&& s.reported(r.token)
                &&& r == s.policy.resumption(r.token, s.waits[r.token])
            },
        forall|i: int, j: int|
            0 <= i < j < s.deliveries().len() ==> (#[trigger] s.deliveries()[i]).token != (
            #[trigger] s.deliveries()[j]).token,
        forall|t: usize|
            s.waits.contains_key(t) && s.reported(t) ==> exists|i: int|
                0 <= i < s.deliveries().len() && (#[trigger] s.deliveries()[i]).token == t,
        s.wf() ==> s.settled().wf() && s.settled().pending() + s.deliveries().len() == s.pending(),
    decreases s.queue.len(),
{
    if s.queue.len() == 0 {
        assert forall|t: usize| !s.reported(t) by {}
    } else {
        let first = s.queue.first().token;
        let rest = s.with_queue(s.queue.drop_first());
        let next = rest.deliver(first).0;
        lemma_batch(next);
        // an event is queued in `s` exactly if it is the first one or queued in `next`
        assert forall|t: usize| s.reported(t) <==> (t == first || next.reported(t)) by {
            if s.reported(t) {
                let k = choose|k: int| 0 <= k < s.queue.len() && (#[trigger] s.queue[k]).token == t;
                if k > 0 {
                    assert(next.queue[k - 1] == s.queue[k]);
                }
            }
            if t == first {
                assert(s.queue[0].token == t);
            }
            if next.reported(t) {
                let k = choose|k: int|
                    0 <= k < next.queue.len() && (#[trigger] next.queue[k]).token == t;
                assert(s.queue[k + 1] == next.queue[k]);
            }
        }
        if s.waits.contains_key(first) {
            let head = s.policy.resumption(first, s.waits[first]);
            assert(s.deliveries() == seq![head] + next.deliveries());
            assert forall|i: int| 0 <= i < s.deliveries().len() implies {
                let r = #[trigger] s.deliveries()[i];
                &&& s.waits.contains_key(r.token)
                &&& s.reported(r.token)
                &&& r == s.policy.resumption(r.token, s.waits[r.token])
            } by {
                if i > 0 {
                    assert(s.deliveries()[i] == next.deliveries()[i - 1]);
                }
            }
            assert forall|i: int, j: int| 0 <= i < j < s.deliveries().len() implies (
            #[trigger] s.deliveries()[i]).token != (#[trigger] s.deliveries()[j]).token by {
                assert(s.deliveries()[j] == next.deliveries()[j - 1]);
                if i > 0 {
                    assert(s.deliveries()[i] == next.deliveries()[i - 1]);
                }
            }
            assert forall|t: usize| s.waits.contains_key(t) && s.reported(t) implies exists|i: int|
                0 <= i < s.deliveries().len() && (#[trigger] s.deliveries()[i]).token == t by {
                if t == first {
                    assert(s.deliveries()[0].token == t);
                } else {
                    let i = choose|i: int|
                        0 <= i < next.deliveries().len() && (#[trigger] next.deliveries()[i]).token
                            == t;
                    assert(s.deliveries()[i + 1] == next.deliveries()[i]);
                }
            }
        } else {
            assert(s.deliveries() == next.deliveries());
        }
    }
}

/// A wait is answered with its own coroutine: once a wait of `coroutine` on
/// `descriptor` is enrolled under `token`, an event for `token` resumes
/// `coroutine`, asks for `descriptor` to be deregistered first exactly under
/// the policy of manual deregistration, and leaves nothing pending under
/// `token`.
pub proof fn lemma_wait_is_answered_with_its_coroutine(
    s: Schedule,
    token: usize,
    coroutine: u64,
    descriptor: i32,
)
    ensures
        s.enroll(token, s.policy.pending(coroutine, descriptor)).deliver(token).1 == Some(
            Resumption {
                token,
                coroutine,
                deregister: if s.policy is ManualDeregisterBeforeResume {
                    Some(descriptor)
                } else {
                    None
                },
            },
        ),
        s.enroll(token, s.policy.pending(coroutine, descriptor)).deliver(token).0.waits
            == s.waits.remove(token),
{
    let enrolled = s.enroll(token, s.policy.pending(coroutine, descriptor));
    assert(enrolled.waits.remove(token) =~= s.waits.remove(token));
}

/// A readiness event is delivered once. After the wait under a token has been
/// delivered, another event for the same token resumes nothing and changes
/// nothing, unless a new wait was enrolled under the token in between.
pub proof fn lemma_second_event_is_ignored(s: Schedule, token: usize)
    ensures
        s.deliver(token).0.deliver(token) == (s.deliver(token).0, None::<Resumption>),
{
}

/// An event whose token has no pending wait, such as one for a wait that
/// another scheduler holds, resumes nothing and changes nothing.
pub proof fn lemma_unknown_token_is_ignored(s: Schedule, token: usize)
    requires
        !s.waits.contains_key(token),
    ensures
        s.deliver(token) == (s, None::<Resumption>),
{
}

/// A delivery takes exactly the delivered wait out of the table.
pub proof fn lemma_delivery_consumes_the_wait(s: Schedule, token: usize)
    requires
        s.wf(),
        s.waits.contains_key(token),
    ensures
        s.deliver(token).1 == Some(s.policy.resumption(token, s.waits[token])),
        s.deliver(token).0.waits == s.waits.remove(token),
        s.deliver(token).0.wf(),
        s.deliver(token).0.pending() + 1 == s.pending(),
{
}

/// How one step of dispatch relates to the batch as a whole: a resumption is
/// the first of the batch's deliveries and leaves the rest to come; any other
/// directive means the batch is used up, and is the verdict on the state so
/// reached.
pub proof fn lemma_advance_follows_the_batch(s: Schedule)
    ensures
        match s.advance() {
            (next, Directive::Resume(resumption)) => {
                &&& s.deliveries() == seq![resumption] + next.deliveries()
                &&& s.settled() == next.settled()
            },
            (next, directive) => {
                &&& s.deliveries() == Seq::<Resumption>::empty()
                &&& next == s.settled()
                &&& directive == next.verdict()
            },
        },
    decreases s.queue.len(),
{
    if s.queue.len() > 0 {
        let rest = s.with_queue(s.queue.drop_first());
        if !s.waits.contains_key(s.queue.first().token) {
            lemma_advance_follows_the_batch(rest);
        }
    }
}

/// A coroutine is resumed only in answer to an event for its own wait: each
/// delivery of a batch is for a token that had a wait pending and that an
/// event of the batch reported, and it resumes the coroutine of that wait.
pub proof fn lemma_resumed_only_when_ready(s: Schedule)
    ensures
        forall|i: int|
            0 <= i < s.deliveries().len() ==> {
                let r = #[trigger] s.deliveries()[i];
                &&& s.waits.contains_key(r.token)
                &&& s.reported(r.token)
                &&& r == s.policy.resumption(r.token, s.waits[r.token])
            },
{
    lemma_batch(s);
}

/// A wait is resumed exactly once: however many events of a batch report its
/// token, the batch holds one delivery for it, and none if no event reports
/// it.
pub proof fn lemma_each_wait_delivered_once(s: Schedule)
    ensures
        forall|i: int, j: int|
            0 <= i < j < s.deliveries().len() ==> (#[trigger] s.deliveries()[i]).token != (
            #[trigger] s.deliveries()[j]).token,
        forall|t: usize|
            s.waits.contains_key(t) && s.reported(t) ==> exists|i: int|
                0 <= i < s.deliveries().len() && (#[trigger] s.deliveries()[i]).token == t,
        forall|t: usize|
            !s.reported(t) ==> forall|i: int|
                0 <= i < s.deliveries().len() ==> (#[trigger] s.deliveries()[i]).token != t,
{
    lemma_batch(s);
}

/// What a batch leaves behind: the waits that no event reported, unchanged,
/// and one wait fewer for each delivery.
pub proof fn lemma_batch_leaves_the_unreported(s: Schedule)
    requires
        s.wf(),
    ensures
        s.settled().wf(),
        s.settled().queue.len() == 0,
        s.settled().pending() + s.deliveries().len() == s.pending(),
        forall|t: usize| #[trigger]
            s.settled().waits.contains_key(t) <==> s.waits.contains_key(t) && !s.reported(t),
        forall|t: usize| #[trigger]
            s.settled().waits.contains_key(t) ==> s.settled().waits[t] == s.waits[t],
{
    lemma_batch(s);
}

/// The drive loop ends when its last wait is delivered: if every pending wait
/// is reported by the batch, the batch resumes each of them, as many as were
/// pending, and the verdict that follows is to finish, not to poll again.
pub proof fn lemma_run_ends_after_last_delivery(s: Schedule)
    requires
        s.wf(),
        forall|t: usize| s.waits.contains_key(t) ==> s.reported(t),
    ensures
        s.deliveries().len() == s.pending(),
        s.settled().pending() == 0,
        s.settled().verdict() == Directive::Finish(Ok(())),
{
    lemma_batch(s);
    assert(s.settled().waits.dom() =~= Set::<usize>::empty());
}

/// What one step of the drive loop does to the pending waits: a resumption
/// takes exactly one wait out; a poll is asked for only with the queue used up
/// and a wait still pending; the loop finishes successfully only with the
/// queue used up and no wait pending; a failed poll changes nothing.
pub proof fn lemma_step_accounts_for_waits(s: Schedule, completion: Completion)
    requires
        s.wf(),
    ensures
        s.step(completion).0.wf(),
        s.step(completion).0.capacity == s.capacity,
        s.step(completion).0.policy == s.policy,
        match s.step(completion) {
            (next, Directive::Resume(resumption)) => {
                &&& s.waits.contains_key(resumption.token)
                &&& resumption == s.policy.resumption(resumption.token, s.waits[resumption.token])
                &&& next.waits == s.waits.remove(resumption.token)
                &&& next.pending() + 1 == s.pending()
            },
            (next, Directive::Poll) => {
                &&& next.waits == s.waits
                &&& next.queue.len() == 0
                &&& next.pending() > 0
            },
            (next, Directive::Finish(Ok(_))) => {
                &&& next.waits == s.waits
                &&& next.queue.len() == 0
                &&& next.pending() == 0
            },
            (next, Directive::Finish(Err(_))) => completion is PollFailed && next == s,
        },
        s.pending() == 0 && !(completion is PollFailed) ==> s.step(completion).1
            == Directive::Finish(Ok(())),
{
    match completion {
        Completion::PollFailed(_) => {},
        Completion::Polled(events) => {
            lemma_advance_accounts_for_waits(s.with_queue(s.queue + events@));
        },
        _ => {
            lemma_advance_accounts_for_waits(s);
        },
    }
}

proof fn lemma_advance_accounts_for_waits(s: Schedule)
    requires
        s.wf(),
    ensures
        s.advance().0.wf(),
        s.advance().0.capacity == s.capacity,
        s.advance().0.policy == s.policy,
        match s.advance() {
            (next, Directive::Resume(resumption)) => {
                &&& s.waits.contains_key(resumption.token)
                &&& resumption == s.policy.resumption(resumption.token, s.waits[resumption.token])
                &&& next.waits == s.waits.remove(resumption.token)
                &&& next.pending() + 1 == s.pending()
            },
            (next, Directive::Poll) => {
                &&& next.waits == s.waits
                &&& next.queue.len() == 0
                &&& next.pending() > 0
            },
            (next, Directive::Finish(Ok(_))) => {
                &&& next.waits == s.waits
                &&& next.queue.len() == 0
                &&& next.pending() == 0
            },
            (next, Directive::Finish(Err(_))) => false,
        },
        s.pending() == 0 ==> s.advance().1 == Directive::Finish(Ok(())),
    decreases s.queue.len(),
{
    if s.queue.len() > 0 {
        let rest = s.with_queue(s.queue.drop_first());
        if !s.waits.contains_key(s.queue.first().token) {
            lemma_advance_accounts_for_waits(rest);
        }
    }
}

/// The drive loop returns after its last resumption. Starting with `k` waits
/// pending and with no wait enrolled meanwhile, whatever is reported to the
/// loop: it asks for a poll only while fewer than `k` coroutines have been
/// resumed; it finishes successfully only once `k` have been; and once `k`
/// have been, its next directive, unless a failed poll is reported, is to
/// finish successfully.
pub proof fn lemma_run_returns_after_last_resumption(s: Schedule, completions: Seq<Completion>)
    requires
        s.wf(),
    ensures
        s.trace(completions).len() == completions.len(),
        s.after(completions).wf(),
        resumptions_among(s.trace(completions)) + s.after(completions).pending() == s.pending(),
        forall|i: int|
            0 <= i < completions.len() && #[trigger] s.trace(completions)[i] == Directive::Poll
                ==> resumptions_among(s.trace(completions).take(i + 1)) < s.pending(),
        forall|i: int|
            0 <= i < completions.len() && #[trigger] s.trace(completions)[i] == Directive::Finish(
                Ok(()),
            ) ==> resumptions_among(s.trace(completions).take(i + 1)) == s.pending(),
        forall|i: int|
            0 <= i < completions.len() && resumptions_among(s.trace(completions).take(i))
                == s.pending() && !(completions[i] is PollFailed) ==> #[trigger] s.trace(
                completions,
            )[i] == Directive::Finish(Ok(())),
    decreases completions.len(),
{
    if completions.len() > 0 {
        let first = completions.first();
        let later = completions.drop_first();
        let (next, directive) = s.step(first);
        let trace = s.trace(completions);
        let tail = next.trace(later);
        lemma_step_accounts_for_waits(s, first);
        lemma_run_returns_after_last_resumption(next, later);
        lemma_resumptions_after_first(directive, tail);
        assert forall|i: int|
            0 <= i < completions.len() && #[trigger] trace[i] == Directive::Poll implies resumptions_among(
            trace.take(i + 1),
        ) < s.pending() by {
            lemma_prefix_after_first(directive, tail, i);
            if i > 0 {
                assert(trace[i] == tail[i - 1]);
            }
        }
        assert forall|i: int|
            0 <= i < completions.len() && #[trigger] trace[i] == Directive::Finish(
                Ok(()),
            ) implies resumptions_among(trace.take(i + 1)) == s.pending() by {
            lemma_prefix_after_first(directive, tail, i);
            if i > 0 {
                assert(trace[i] == tail[i - 1]);
            }
        }
        assert forall|i: int|
            0 <= i < completions.len() && resumptions_among(trace.take(i)) == s.pending() && !(
            completions[i] is PollFailed) implies #[trigger] trace[i] == Directive::Finish(
            Ok(()),
        ) by {
            if i > 0 {
                lemma_prefix_after_first(directive, tail, i - 1);
                assert(trace[i] == tail[i - 1]);
                assert(completions[i] == later[i - 1]);
            } else {
                assert(trace.take(0) =~= Seq::<Directive>::empty());
            }
        }
    }
}

/// Counting resumptions from the front: the first directive counts if it is
/// one, and the rest count as they do on their own.
proof fn lemma_resumptions_after_first(first: Directive, rest: Seq<Directive>)
    ensures
        resumptions_among(seq![first] + rest) == resumptions_among(rest) + (if first is Resume {
            1nat
        } else {
            0nat
        }),
{
    assert((seq![first] + rest).drop_first() =~= rest);
}

/// The same for a prefix: the first `n + 1` directives hold the first one and
/// the first `n` of the rest.
proof fn lemma_prefix_after_first(first: Directive, rest: Seq<Directive>, n: int)
    requires
        0 <= n <= rest.len(),
    ensures
        resumptions_among((seq![first] + rest).take(n + 1)) == resumptions_among(rest.take(n)) + (
        if first is Resume {
            1nat
        } else {
            0nat
        }),
{
    assert((seq![first] + rest).take(n + 1) =~= seq![first] + rest.take(n));
    lemma_resumptions_after_first(first, rest.take(n));
}

/// A scheduler does not act on another's waits: a batch none of whose tokens
/// has a wait pending here resumes nothing and leaves the waits as they were,
/// and the loop finishes if nothing is pending here and polls again
/// otherwise.
pub proof fn lemma_foreign_batch_resumes_nothing(s: Schedule)
    requires
        forall|t: usize| s.reported(t) ==> !s.waits.contains_key(t),
    ensures
        s.deliveries() == Seq::<Resumption>::empty(),
        s.advance() == (s.with_queue(Seq::empty()), s.verdict()),
    decreases s.queue.len(),
{
    if s.queue.len() > 0 {
        let rest = s.with_queue(s.queue.drop_first());
        assert(s.reported(s.queue[0].token));
        assert forall|t: usize| rest.reported(t) implies !rest.waits.contains_key(t) by {
            let k = choose|k: int| 0 <= k < rest.queue.len() && (#[trigger] rest.queue[k]).token == t;
            assert(s.queue[k + 1] == rest.queue[k]);
            assert(s.reported(t));
        }
        lemma_foreign_batch_resumes_nothing(rest);
        assert(rest.with_queue(Seq::empty()) == s.with_queue(Seq::empty()));
    } else {
        assert(s.queue =~= Seq::<Event>::empty());
    }
}

} // verus!
