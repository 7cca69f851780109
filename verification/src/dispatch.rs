//! The admission/completion state machine at the heart of the queue.
//!
//! One control flow reads lines and dispatches one job per non-blank line;
//! each job runs as an independently scheduled task. Admission is a counting
//! permit pool of fixed size `limit`: a job is dispatched only while fewer
//! than `limit` jobs are running, and every job — whether it succeeds, exits
//! non-zero, or fails to launch — gives its permit back exactly once. The
//! run may end only once the input is exhausted and every dispatched job has
//! been awaited.
//!
//! The machine is modelled twice: as a ghost transition system
//! ([`QueueState`], [`step`], [`run`]) over which the global laws are proved,
//! and as the executable [`Dispatcher`] whose methods perform exactly those
//! transitions.

use vstd::prelude::*;

verus! {

/// The abstract state of one run of the queue.
pub ghost struct QueueState {
    /// The fixed concurrency limit (at least 1).
    pub limit: nat,
    /// Jobs dispatched and not yet finished: outstanding permits.
    pub running: nat,
    /// Jobs dispatched since the start of the run.
    pub dispatched: nat,
    /// Jobs that have finished (in any way) and returned their permit.
    pub completed: nat,
    /// Whether the line source is exhausted: no further job will come.
    pub input_closed: bool,
}

/// One transition of the queue.
#[derive(Clone, Copy, PartialEq, Eq, Structural, Debug)]
pub enum Event {
    /// A non-blank line was read and a job was started for it.
    Dispatch,
    /// Some running job finished: it exited (with any status) or failed to
    /// launch. Its permit returns to the pool.
    Complete,
    /// The line source reached its end: no further dispatch will happen.
    CloseInput,
}

/// The state at the start of a run with concurrency limit `limit`.
pub open spec fn init(limit: nat) -> QueueState {
    QueueState { limit: limit, running: 0, dispatched: 0, completed: 0, input_closed: false }
}

/// Well-formedness: the invariant every reachable state satisfies. The
/// running count never exceeds the limit, and every dispatched job is either
/// still running or has been completed — none is lost, none counted twice.
pub open spec fn wf(s: QueueState) -> bool {
    &&& s.limit >= 1
    &&& s.running <= s.limit
    &&& s.dispatched == s.completed + s.running
}

/// When an event may occur: a dispatch needs a free permit and an open input;
/// a completion needs a running job; the input is closed once.
pub open spec fn enabled(s: QueueState, e: Event) -> bool {
    match e {
        Event::Dispatch => s.running < s.limit && !s.input_closed,
        Event::Complete => s.running > 0,
        Event::CloseInput => !s.input_closed,
    }
}

/// The transition function. A completion in a state with nothing running is
/// never enabled and leaves the state unchanged.
pub open spec fn step(s: QueueState, e: Event) -> QueueState {
    match e {
        Event::Dispatch => QueueState {
            running: s.running + 1,
            dispatched: s.dispatched + 1,
            ..s
        },
        Event::Complete => if s.running > 0 {
            QueueState {
                running: (s.running - 1) as nat,
                completed: s.completed + 1,
                ..s
            }
        } else {
            s
        },
        Event::CloseInput => QueueState { input_closed: true, ..s },
    }
}

/// The state after a whole sequence of events.
pub open spec fn run(s: QueueState, es: Seq<Event>) -> QueueState
    decreases es.len(),
{
    if es.len() == 0 {
        s
    } else {
        run(step(s, es[0]), es.drop_first())
    }
}

/// A trace is valid when every event is enabled in the state it occurs in.
pub open spec fn valid_from(s: QueueState, es: Seq<Event>) -> bool
    decreases es.len(),
{
    es.len() == 0 || (enabled(s, es[0]) && valid_from(step(s, es[0]), es.drop_first()))
}

/// How many jobs a trace dispatches.
pub open spec fn count_dispatches(es: Seq<Event>) -> nat
    decreases es.len(),
{
    if es.len() == 0 {
        0
    } else {
        (if es[0] is Dispatch { 1nat } else { 0nat }) + count_dispatches(es.drop_first())
    }
}

/// The run may end: no further job will come and none is still running.
pub open spec fn may_exit(s: QueueState) -> bool {
    s.input_closed && s.running == 0
}

/// Every enabled event preserves well-formedness.
pub proof fn lemma_step_preserves_wf(s: QueueState, e: Event)
    requires
        wf(s),
        enabled(s, e),
    ensures
        wf(step(s, e)),
{
}

/// Well-formedness holds after any valid trace.
pub proof fn lemma_run_preserves_wf(s: QueueState, es: Seq<Event>)
    requires
        wf(s),
        valid_from(s, es),
    ensures
        wf(run(s, es)),
    decreases es.len(),
{
    if es.len() > 0 {
        lemma_step_preserves_wf(s, es[0]);
        lemma_run_preserves_wf(step(s, es[0]), es.drop_first());
    }
}

/// A prefix of a valid trace is itself valid.
pub proof fn lemma_valid_take(s: QueueState, es: Seq<Event>, i: int)
    requires
        valid_from(s, es),
        0 <= i <= es.len(),
    ensures
        valid_from(s, es.take(i)),
    decreases es.len(),
{
    if i > 0 {
        assert(es.take(i)[0] == es[0]);
        assert(es.take(i).drop_first() =~= es.drop_first().take(i - 1));
        lemma_valid_take(step(s, es[0]), es.drop_first(), i - 1);
    }
}

/// The number of concurrently running jobs never exceeds the limit: at every
/// point of every valid run, `running <= limit`.
pub proof fn lemma_concurrency_bounded(limit: nat, es: Seq<Event>, i: int)
    requires
        limit >= 1,
        valid_from(init(limit), es),
        0 <= i <= es.len(),
    ensures
        run(init(limit), es.take(i)).running <= limit,
{
    lemma_valid_take(init(limit), es, i);
    lemma_run_preserves_wf(init(limit), es.take(i));
    lemma_limit_constant(init(limit), es.take(i));
}

/// The limit never changes during a run.
pub proof fn lemma_limit_constant(s: QueueState, es: Seq<Event>)
    ensures
        run(s, es).limit == s.limit,
    decreases es.len(),
{
    if es.len() > 0 {
        lemma_limit_constant(step(s, es[0]), es.drop_first());
    }
}

/// Exactly as many jobs are dispatched as the trace carries dispatch events:
/// one job per non-blank input line, none dropped and none duplicated.
pub proof fn lemma_all_lines_dispatched(limit: nat, es: Seq<Event>)
    ensures
        run(init(limit), es).dispatched == count_dispatches(es),
    decreases es.len(),
{
    lemma_dispatch_count_from(init(limit), es);
}

/// Dispatch counting, from an arbitrary starting state.
pub proof fn lemma_dispatch_count_from(s: QueueState, es: Seq<Event>)
    ensures
        run(s, es).dispatched == s.dispatched + count_dispatches(es),
    decreases es.len(),
{
    if es.len() > 0 {
        lemma_dispatch_count_from(step(s, es[0]), es.drop_first());
    }
}

/// The run does not end before every dispatched job has been awaited: if a
/// valid run reaches a state that may exit, every job the trace dispatched
/// has been completed.
pub proof fn lemma_no_exit_before_all_awaited(limit: nat, es: Seq<Event>)
    requires
        limit >= 1,
        valid_from(init(limit), es),
        may_exit(run(init(limit), es)),
    ensures
        run(init(limit), es).completed == count_dispatches(es),
{
    lemma_run_preserves_wf(init(limit), es);
    lemma_all_lines_dispatched(limit, es);
}

/// Failure isolation: a completion — however the job ended — frees one unit
/// of capacity, so while the input is open the next job can be dispatched.
pub proof fn lemma_completion_frees_capacity(s: QueueState)
    requires
        wf(s),
        s.running > 0,
    ensures
        step(s, Event::Complete).running < s.limit,
        !s.input_closed ==> enabled(step(s, Event::Complete), Event::Dispatch),
{
}

/// A trace never dispatches more jobs than it has events.
pub proof fn lemma_dispatch_count_le_len(es: Seq<Event>)
    ensures
        count_dispatches(es) <= es.len(),
    decreases es.len(),
{
    if es.len() > 0 {
        lemma_dispatch_count_le_len(es.drop_first());
    }
}

/// Running one more event equals stepping the state the trace reaches.
pub proof fn lemma_run_snoc(s: QueueState, es: Seq<Event>, e: Event)
    ensures
        run(s, es.push(e)) == step(run(s, es), e),
    decreases es.len(),
{
    reveal_with_fuel(run, 2);
    if es.len() == 0 {
        assert(es.push(e)[0] == e);
        assert(es.push(e).drop_first() =~= Seq::<Event>::empty());
    } else {
        assert(es.push(e)[0] == es[0]);
        assert(es.push(e).drop_first() =~= es.drop_first().push(e));
        lemma_run_snoc(step(s, es[0]), es.drop_first(), e);
    }
}

/// A valid trace stays valid when an event enabled at its end is appended.
pub proof fn lemma_valid_snoc(s: QueueState, es: Seq<Event>, e: Event)
    requires
        valid_from(s, es),
        enabled(run(s, es), e),
    ensures
        valid_from(s, es.push(e)),
    decreases es.len(),
{
    reveal_with_fuel(valid_from, 2);
    if es.len() == 0 {
        assert(es.push(e)[0] == e);
        assert(es.push(e).drop_first() =~= Seq::<Event>::empty());
    } else {
        assert(es.push(e)[0] == es[0]);
        assert(es.push(e).drop_first() =~= es.drop_first().push(e));
        lemma_valid_snoc(step(s, es[0]), es.drop_first(), e);
    }
}

/// In a valid trace, every event is enabled in the state it occurs in.
pub proof fn lemma_valid_index(s: QueueState, es: Seq<Event>, i: int)
    requires
        valid_from(s, es),
        0 <= i < es.len(),
    ensures
        enabled(run(s, es.take(i)), es[i]),
    decreases es.len(),
{
    if i == 0 {
        assert(es.take(0) =~= Seq::<Event>::empty());
    } else {
        assert(es.take(i)[0] == es[0]);
        assert(es.take(i).drop_first() =~= es.drop_first().take(i - 1));
        lemma_valid_index(step(s, es[0]), es.drop_first(), i - 1);
    }
}

/// An empty input dispatches no job and may exit at once: closing the input
/// of the initial state yields a state that may exit with zero dispatches.
pub proof fn lemma_empty_input(limit: nat)
    requires
        limit >= 1,
    ensures
        may_exit(step(init(limit), Event::CloseInput)),
        step(init(limit), Event::CloseInput).dispatched == 0,
{
}

/// The executable dispatcher. Its abstract value is a [`QueueState`]; each
/// method performs exactly one [`step`] of the ghost transition system.
pub struct Dispatcher {
    limit: usize,
    running: usize,
    dispatched: u64,
    completed: u64,
    input_closed: bool,
}

impl View for Dispatcher {
    type V = QueueState;

    closed spec fn view(&self) -> QueueState {
        QueueState {
            limit: self.limit as nat,
            running: self.running as nat,
            dispatched: self.dispatched as nat,
            completed: self.completed as nat,
            input_closed: self.input_closed,
        }
    }
}

impl Dispatcher {
    /// A dispatcher for a fresh run with concurrency limit `limit`.
    pub fn new(limit: usize) -> (d: Dispatcher)
        requires
            limit >= 1,
        ensures
            d@ == init(limit as nat),
            wf(d@),
    {
        Dispatcher { limit, running: 0, dispatched: 0, completed: 0, input_closed: false }
    }

    /// Whether a permit is free, so that one more job may be dispatched.
    pub fn capacity_left(&self) -> (r: bool)
        ensures
            r == (self@.running < self@.limit),
    {
        self.running < self.limit
    }

    /// Whether the line source has been closed.
    pub fn input_closed(&self) -> (r: bool)
        ensures
            r == self@.input_closed,
    {
        self.input_closed
    }

    /// Admits one job: takes a permit and counts the dispatch. Only called
    /// while a permit is free and the input is still open.
    pub fn dispatch_job(&mut self)
        requires
            wf(old(self)@),
            old(self)@.running < old(self)@.limit,
            !old(self)@.input_closed,
            old(self)@.dispatched < u64::MAX,
        ensures
            final(self)@ == step(old(self)@, Event::Dispatch),
            wf(final(self)@),
    {
        self.running = self.running + 1;
        self.dispatched = self.dispatched + 1;
    }

    /// Records that one running job finished — by exiting with any status or
    /// by failing to launch — and returns its permit to the pool.
    pub fn job_completed(&mut self)
        requires
            wf(old(self)@),
            old(self)@.running > 0,
        ensures
            final(self)@ == step(old(self)@, Event::Complete),
            wf(final(self)@),
    {
        self.running = self.running - 1;
        self.completed = self.completed + 1;
    }

    /// Records that the line source is exhausted: no further dispatch.
    pub fn close_input(&mut self)
        requires
            wf(old(self)@),
        ensures
            final(self)@ == step(old(self)@, Event::CloseInput),
            wf(final(self)@),
    {
        self.input_closed = true;
    }

    /// Whether the run may end: input exhausted and every job awaited.
    pub fn may_exit(&self) -> (r: bool)
        ensures
            r == may_exit(self@),
    {
        self.input_closed && self.running == 0
    }

    /// The number of jobs currently running.
    pub fn running_jobs(&self) -> (r: usize)
        ensures
            r as nat == self@.running,
    {
        self.running
    }

    /// The number of jobs dispatched so far.
    pub fn jobs_dispatched(&self) -> (r: u64)
        ensures
            r as nat == self@.dispatched,
    {
        self.dispatched
    }

    /// The number of jobs that have finished so far.
    pub fn jobs_completed(&self) -> (r: u64)
        ensures
            r as nat == self@.completed,
    {
        self.completed
    }
}

/// Replays a recorded event trace against a fresh run with the given limit.
/// The trace is accepted — and the dispatcher it ends in returned — exactly
/// when every event was enabled in the state it occurred in; a trace that
/// ever dispatches past the limit, completes with nothing running or closes
/// the input twice is rejected at the first such event. This makes the
/// admission discipline checkable against a recording of an actual run.
pub fn replay(limit: usize, events: &Vec<Event>) -> (r: Option<Dispatcher>)
    requires
        limit >= 1,
    ensures
        r is Some <==> valid_from(init(limit as nat), events@),
        r matches Some(d) ==> d@ == run(init(limit as nat), events@) && wf(d@),
{
    let ghost s0 = init(limit as nat);
    let mut d = Dispatcher::new(limit);
    let n = events.len();
    let mut i: usize = 0;
    proof {
        assert(events@.take(0) =~= Seq::<Event>::empty());
    }
    while i < n
        invariant
            limit >= 1,
            s0 == init(limit as nat),
            n == events@.len(),
            i <= n,
            valid_from(s0, events@.take(i as int)),
            d@ == run(s0, events@.take(i as int)),
            wf(d@),
        decreases n - i,
    {
        let ghost taken = events@.take(i as int);
        let ev = events[i];
        let enabled_now = match ev {
            Event::Dispatch => d.capacity_left() && !d.input_closed(),
            Event::Complete => d.running_jobs() > 0,
            Event::CloseInput => !d.input_closed(),
        };
        if !enabled_now {
            proof {
                if valid_from(s0, events@) {
                    lemma_valid_index(s0, events@, i as int);
                }
            }
            return None;
        }
        proof {
            lemma_dispatch_count_le_len(taken);
            lemma_dispatch_count_from(s0, taken);
            assert(d@.dispatched <= i < u64::MAX);
        }
        match ev {
            Event::Dispatch => d.dispatch_job(),
            Event::Complete => d.job_completed(),
            Event::CloseInput => d.close_input(),
        }
        proof {
            assert(events@.take(i as int + 1) =~= taken.push(events@[i as int]));
            lemma_run_snoc(s0, taken, events@[i as int]);
            lemma_valid_snoc(s0, taken, events@[i as int]);
        }
        i = i + 1;
    }
    proof {
        assert(events@.take(n as int) =~= events@);
    }
    Some(d)
}

} // verus!
