use cmdqueue::dispatch::Dispatcher;
use cmdqueue::dispatch::Event;
use cmdqueue::dispatch::replay;

#[test]
fn three_jobs_with_limit_two_never_run_more_than_two() {
    let mut d = Dispatcher::new(2);
    assert!(d.capacity_left());
    d.dispatch_job();
    assert!(d.running_jobs() <= 2);
    assert!(d.capacity_left());
    d.dispatch_job();
    assert!(d.running_jobs() <= 2);

    // The pool is exhausted: the third job must wait for a completion.
    assert!(!d.capacity_left());

    d.job_completed();
    assert!(d.capacity_left());
    d.dispatch_job();
    assert!(d.running_jobs() <= 2);

    assert_eq!(d.jobs_dispatched(), 3);

    d.close_input();
    assert!(!d.may_exit());
    d.job_completed();
    assert!(!d.may_exit());
    d.job_completed();
    assert!(d.may_exit());
    assert_eq!(d.jobs_completed(), 3);
}

#[test]
fn limit_one_admits_one_job_at_a_time() {
    let mut d = Dispatcher::new(1);
    d.dispatch_job();
    assert!(!d.capacity_left());
    d.job_completed();
    assert!(d.capacity_left());
}

#[test]
fn empty_input_exits_at_once_with_zero_dispatches() {
    let mut d = Dispatcher::new(4);
    assert!(!d.may_exit());
    d.close_input();
    assert!(d.may_exit());
    assert_eq!(d.jobs_dispatched(), 0);
    assert_eq!(d.jobs_completed(), 0);
}

#[test]
fn exit_needs_both_closed_input_and_drained_jobs() {
    let mut d = Dispatcher::new(3);
    d.dispatch_job();
    d.dispatch_job();
    assert!(!d.may_exit());
    d.close_input();
    assert!(!d.may_exit());
    d.job_completed();
    assert!(!d.may_exit());
    d.job_completed();
    assert!(d.may_exit());
}

#[test]
fn replay_accepts_a_run_of_three_jobs_under_limit_two() {
    // Three jobs, at most two in flight at any moment.
    let trace = vec![
        Event::Dispatch,
        Event::Dispatch,
        Event::Complete,
        Event::Dispatch,
        Event::CloseInput,
        Event::Complete,
        Event::Complete,
    ];
    let d = replay(2, &trace).expect("an admissible trace");
    assert_eq!(d.jobs_dispatched(), 3);
    assert_eq!(d.jobs_completed(), 3);
    assert!(d.may_exit());
}

#[test]
fn replay_rejects_a_third_concurrent_job_under_limit_two() {
    let trace = vec![Event::Dispatch, Event::Dispatch, Event::Dispatch];
    assert!(replay(2, &trace).is_none());
}

#[test]
fn replay_rejects_a_completion_with_nothing_running() {
    let trace = vec![Event::Complete];
    assert!(replay(3, &trace).is_none());
}

#[test]
fn replay_rejects_dispatch_after_the_input_closed() {
    let trace = vec![Event::CloseInput, Event::Dispatch];
    assert!(replay(2, &trace).is_none());
}

#[test]
fn replay_rejects_closing_the_input_twice() {
    let trace = vec![Event::CloseInput, Event::CloseInput];
    assert!(replay(2, &trace).is_none());
}

#[test]
fn replay_of_an_empty_trace_dispatches_nothing() {
    let trace: Vec<Event> = Vec::new();
    let d = replay(1, &trace).expect("the empty trace is admissible");
    assert_eq!(d.jobs_dispatched(), 0);
    assert!(!d.may_exit());
}

#[test]
fn counters_track_every_job() {
    let mut d = Dispatcher::new(2);
    d.dispatch_job();
    d.job_completed();
    d.dispatch_job();
    d.dispatch_job();
    assert_eq!(d.jobs_dispatched(), 3);
    assert_eq!(d.jobs_completed(), 1);
    assert_eq!(d.running_jobs(), 2);
}
