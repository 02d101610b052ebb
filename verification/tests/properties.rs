use eventedco::event::{Event, EventKind, Interest, OsFailure, RegistrationError};
use eventedco::policy::{ReadinessPolicy, Resumption};
use eventedco::processor::Processor;
use eventedco::protocol::{Completion, Directive, ResumeOutcome, WaitStep};

const MANUAL: ReadinessPolicy = ReadinessPolicy::ManualDeregisterBeforeResume;

fn readable(token: usize) -> Event {
    Event { token, kind: EventKind::Readable }
}

/// Drives the loop from `first` until it asks for a poll or finishes, and
/// returns the resumptions it asked for on the way and the directive it
/// stopped at.
fn drain(processor: &mut Processor, first: Completion) -> (Vec<Resumption>, Directive) {
    let mut resumed = Vec::new();
    let mut directive = processor.run(first);
    loop {
        match directive {
            Directive::Resume(resumption) => {
                resumed.push(resumption);
                directive = processor.run(Completion::Resumed(ResumeOutcome::Returned));
            }
            other => return (resumed, other),
        }
    }
}

#[test]
fn oneshot_delivery_resumes_once_while_resource_stays_ready() {
    let mut processor = Processor::with_capacity(8, MANUAL);
    let token = processor.wait_event(1, 10, Interest::Readable).unwrap().token;
    let other = processor.wait_event(2, 11, Interest::Readable).unwrap().token;
    let batch = vec![readable(token), readable(token), readable(token)];
    let (resumed, directive) = drain(&mut processor, Completion::Polled(batch));
    assert_eq!(resumed, vec![Resumption { token, coroutine: 1, deregister: Some(10) }]);
    assert_eq!(directive, Directive::Poll);
    let (resumed, directive) = drain(&mut processor, Completion::Polled(vec![readable(token)]));
    assert_eq!(resumed, Vec::new());
    assert_eq!(directive, Directive::Poll);
    let (resumed, directive) = drain(&mut processor, Completion::Polled(vec![readable(other)]));
    assert_eq!(resumed.len(), 1);
    assert_eq!(directive, Directive::Finish(Ok(())));
}

#[test]
fn run_returns_after_the_kth_resumption_in_one_batch() {
    let mut processor = Processor::with_capacity(8, MANUAL);
    let mut tokens = Vec::new();
    for i in 0..5u64 {
        tokens.push(processor.wait_event(i, i as i32, Interest::Readable).unwrap().token);
    }
    let batch: Vec<Event> = tokens.iter().map(|t| readable(*t)).collect();
    let (resumed, directive) = drain(&mut processor, Completion::Polled(batch));
    assert_eq!(resumed.len(), 5);
    assert_eq!(directive, Directive::Finish(Ok(())));
    assert_eq!(processor.pending(), 0);
}

#[test]
fn run_returns_after_the_kth_resumption_over_several_polls() {
    let mut processor = Processor::with_capacity(8, MANUAL);
    let mut tokens = Vec::new();
    for i in 0..3u64 {
        tokens.push(processor.wait_event(i, i as i32, Interest::Readable).unwrap().token);
    }
    let mut polls = 0;
    let mut resumptions = 0;
    let mut directive = processor.run(Completion::Start);
    loop {
        match directive {
            Directive::Poll => {
                assert!(resumptions < 3);
                let batch = vec![readable(tokens[polls])];
                polls += 1;
                directive = processor.run(Completion::Polled(batch));
            }
            Directive::Resume(resumption) => {
                assert_eq!(resumption.coroutine, resumptions as u64);
                resumptions += 1;
                directive = processor.run(Completion::Resumed(ResumeOutcome::Returned));
            }
            Directive::Finish(result) => {
                assert_eq!(result, Ok(()));
                break;
            }
        }
    }
    assert_eq!(resumptions, 3);
    assert_eq!(polls, 3);
}

#[test]
fn coroutine_is_resumed_only_after_its_event() {
    let mut processor = Processor::with_capacity(8, MANUAL);
    let waiting = processor.wait_event(1, 10, Interest::Readable).unwrap();
    assert_eq!(processor.registered(waiting.token, Ok(())), WaitStep::Suspend);
    let other = processor.wait_event(2, 11, Interest::Readable).unwrap();
    assert_eq!(processor.registered(other.token, Ok(())), WaitStep::Suspend);
    let (resumed, directive) = drain(&mut processor, Completion::Start);
    assert!(resumed.is_empty());
    assert_eq!(directive, Directive::Poll);
    let (resumed, _) = drain(&mut processor, Completion::Polled(Vec::new()));
    assert!(resumed.is_empty());
    let (resumed, _) = drain(&mut processor, Completion::Polled(vec![readable(other.token)]));
    assert_eq!(resumed, vec![Resumption { token: other.token, coroutine: 2, deregister: Some(11) }]);
    let (resumed, directive) = drain(&mut processor, Completion::Polled(vec![readable(waiting.token)]));
    assert_eq!(resumed, vec![Resumption { token: waiting.token, coroutine: 1, deregister: Some(10) }]);
    assert_eq!(directive, Directive::Finish(Ok(())));
}

#[test]
fn failed_registration_never_suspends() {
    let mut processor = Processor::with_capacity(1, MANUAL);
    let registration = processor.wait_event(1, 10, Interest::Readable).unwrap();
    let step = processor.registered(registration.token, Err(OsFailure { code: Some(1) }));
    assert_ne!(step, WaitStep::Suspend);
    assert_eq!(step, WaitStep::Fail(RegistrationError::Rejected(OsFailure { code: Some(1) })));
    let held = processor.wait_event(2, 11, Interest::Readable).unwrap();
    assert_eq!(processor.registered(held.token, Ok(())), WaitStep::Suspend);
    assert_eq!(
        processor.wait_event(3, 12, Interest::Readable),
        Err(RegistrationError::ResourceExhausted)
    );
}

#[test]
fn schedulers_do_not_resume_each_others_waits() {
    let mut a = Processor::with_capacity(8, MANUAL);
    let mut b = Processor::with_capacity(8, MANUAL);
    let token = a.wait_event(1, 10, Interest::Readable).unwrap().token;
    let (resumed, directive) = drain(&mut b, Completion::Polled(vec![readable(token)]));
    assert!(resumed.is_empty());
    assert_eq!(directive, Directive::Finish(Ok(())));
    assert_eq!(b.pending(), 0);
    assert_eq!(a.pending(), 1);
    let (resumed, directive) = drain(&mut a, Completion::Polled(vec![readable(token)]));
    assert_eq!(resumed, vec![Resumption { token, coroutine: 1, deregister: Some(10) }]);
    assert_eq!(directive, Directive::Finish(Ok(())));
}

#[test]
fn recycled_token_resumes_the_new_wait() {
    let mut processor = Processor::with_capacity(1, MANUAL);
    let first = processor.wait_event(1, 10, Interest::Readable).unwrap().token;
    let (resumed, _) = drain(&mut processor, Completion::Polled(vec![readable(first)]));
    assert_eq!(resumed[0].coroutine, 1);
    let second = processor.wait_event(2, 20, Interest::Readable).unwrap().token;
    assert_eq!(second, first);
    let (resumed, directive) = drain(&mut processor, Completion::Polled(vec![readable(second)]));
    assert_eq!(resumed, vec![Resumption { token: second, coroutine: 2, deregister: Some(20) }]);
    assert_eq!(directive, Directive::Finish(Ok(())));
}
