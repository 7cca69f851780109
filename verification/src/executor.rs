//! Per-job execution policy: how a job's standard streams are wired, and
//! which diagnostic lines the run emits for it.
//!
//! In serial mode the child's own output shows progress, so no notice is
//! printed. When output is not inherited, a notice is printed when the job
//! starts and another when it ends, telling success from failure. A launch
//! error — the command cannot be started at all — is always reported, names
//! the command and the underlying cause, and never aborts sibling jobs.

use crate::config::RunnerConfig;
use crate::dispatch::Dispatcher;
use crate::dispatch::Event;
use crate::dispatch::step;
use crate::dispatch::wf;
use vstd::prelude::*;

verus! {

/// How one standard stream of a child process is wired.
#[derive(Clone, Copy, PartialEq, Eq, Structural, Debug)]
pub enum StdioPolicy {
    /// The child shares the parent's stream directly.
    Inherit,
    /// The child gets an empty/discarded stream.
    Discard,
}

/// The wiring of all three standard streams of one job's child process.
#[derive(Clone, Copy, PartialEq, Eq, Structural, Debug)]
pub struct StreamPlan {
    pub stdin: StdioPolicy,
    pub stdout: StdioPolicy,
    pub stderr: StdioPolicy,
}

/// Derives the stream wiring of every job of a run: stdin follows
/// `inherit_input`, stdout and stderr follow `inherit_output`.
pub fn stream_plan(cfg: &RunnerConfig) -> (p: StreamPlan)
    ensures
        p.stdin == (if cfg.inherit_input {
            StdioPolicy::Inherit
        } else {
            StdioPolicy::Discard
        }),
        p.stdout == (if cfg.inherit_output {
            StdioPolicy::Inherit
        } else {
            StdioPolicy::Discard
        }),
        p.stderr == p.stdout,
{
    StreamPlan {
        stdin: if cfg.inherit_input {
            StdioPolicy::Inherit
        } else {
            StdioPolicy::Discard
        },
        stdout: if cfg.inherit_output {
            StdioPolicy::Inherit
        } else {
            StdioPolicy::Discard
        },
        stderr: if cfg.inherit_output {
            StdioPolicy::Inherit
        } else {
            StdioPolicy::Discard
        },
    }
}

/// How one job ended.
pub enum JobOutcome {
    /// The child could not be started at all; `cause` is the launcher's
    /// description of why (command not found, permission denied, ...).
    LaunchFailed { cause: String },
    /// The child ran to its end; `success` is whether its exit status was
    /// zero.
    Exited { success: bool },
}

/// The notice printed when a job starts, with the command quoted.
pub open spec fn start_message(cmd: Seq<char>) -> Seq<char> {
    "Starting job \""@ + cmd + "\"."@
}

/// The notice printed when a job's child exits with status zero.
pub open spec fn finished_message(cmd: Seq<char>) -> Seq<char> {
    "Job \""@ + cmd + "\" finished."@
}

/// The notice printed when a job's child exits with a non-zero status.
pub open spec fn failed_message(cmd: Seq<char>) -> Seq<char> {
    "Job \""@ + cmd + "\" failed."@
}

/// The report printed when a job's child cannot be launched at all.
pub open spec fn launch_error_message(cmd: Seq<char>, cause: Seq<char>) -> Seq<char> {
    "Error running job \""@ + cmd + "\": "@ + cause
}

/// The diagnostic emitted when the job for `cmd` starts: exactly the start
/// notice when output is not inherited, nothing in serial mode.
pub fn start_notice(cfg: &RunnerConfig, cmd: &str) -> (r: Option<String>)
    ensures
        cfg.inherit_output <==> r is None,
        r matches Some(m) ==> m@ == start_message(cmd@),
{
    if cfg.inherit_output {
        None
    } else {
        let mut m = String::from_str("Starting job \"");
        m.append(cmd);
        m.append("\".");
        Some(m)
    }
}

/// The diagnostic emitted when the job for `cmd` ends. A launch error is
/// always reported, with the command and its cause; an exit is reported —
/// told apart by status — exactly when output is not inherited.
pub fn completion_notice(cfg: &RunnerConfig, cmd: &str, outcome: &JobOutcome) -> (r: Option<
    String,
>)
    ensures
        (outcome matches JobOutcome::LaunchFailed { cause } ==> r matches Some(m) && m@
            == launch_error_message(cmd@, cause@)),
        (outcome matches JobOutcome::Exited { success } ==> {
            &&& cfg.inherit_output <==> r is None
            &&& (r matches Some(m) ==> m@ == (if *success {
                finished_message(cmd@)
            } else {
                failed_message(cmd@)
            }))
        }),
{
    match outcome {
        JobOutcome::LaunchFailed { cause } => {
            let mut m = String::from_str("Error running job \"");
            m.append(cmd);
            m.append("\": ");
            m.append(cause.as_str());
            Some(m)
        },
        JobOutcome::Exited { success } => {
            if cfg.inherit_output {
                None
            } else {
                let mut m = String::from_str("Job \"");
                m.append(cmd);
                if *success {
                    m.append("\" finished.");
                } else {
                    m.append("\" failed.");
                }
                Some(m)
            }
        },
    }
}

/// Marks one job as finished on the dispatcher, whatever its outcome was.
/// Success, a non-zero exit and a launch failure all hand the permit back in
/// the same way — a failing job never blocks its siblings' admission.
pub fn conclude_job(d: &mut Dispatcher, outcome: &JobOutcome)
    requires
        wf(old(d)@),
        old(d)@.running > 0,
    ensures
        final(d)@ == step(old(d)@, Event::Complete),
        wf(final(d)@),
{
    d.job_completed();
}

} // verus!
