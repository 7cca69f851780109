//! Runner configuration: how a job's standard streams are wired, derived
//! once at startup from the parallelism level and the kind of input source.

use vstd::prelude::*;

verus! {

/// Immutable per-run configuration, shared by every job.
///
/// `inherit_output` is true only in serial mode (one job at a time), because
/// concurrent jobs must not interleave on the parent's shared streams.
/// `inherit_input` additionally demands a named input file: when commands are
/// read from standard input, that stream is already consumed by the line
/// source and cannot also feed a child.
#[derive(Clone, Copy, PartialEq, Eq, Structural, Debug)]
pub struct RunnerConfig {
    pub inherit_output: bool,
    pub inherit_input: bool,
}

impl RunnerConfig {
    /// Derives the stream policy from the parallelism level `jobs` and
    /// whether the input is a named file (`has_input_file`) rather than the
    /// implicit standard-input stream.
    pub fn from_settings(jobs: u16, has_input_file: bool) -> (c: RunnerConfig)
        requires
            jobs >= 1,
        ensures
            c.inherit_output == (jobs == 1),
            c.inherit_input == (has_input_file && jobs == 1),
    {
        RunnerConfig {
            inherit_output: jobs == 1,
            inherit_input: has_input_file && jobs == 1,
        }
    }
}

/// A startup error: the configuration cannot be used at all.
#[derive(Clone, Copy, PartialEq, Eq, Structural, Debug)]
pub enum ConfigError {
    /// A parallelism level of zero admits no job and is rejected.
    ZeroJobs,
}

/// Checks the configured parallelism level. Zero is rejected at startup;
/// every positive level is accepted.
pub fn validate_jobs(jobs: u16) -> (r: Result<u16, ConfigError>)
    ensures
        jobs >= 1 <==> r is Ok,
        r is Ok ==> r->Ok_0 == jobs,
        r is Err ==> r->Err_0 == ConfigError::ZeroJobs,
{
    if jobs == 0 {
        Err(ConfigError::ZeroJobs)
    } else {
        Ok(jobs)
    }
}

} // verus!
