use cmdqueue::config::ConfigError;
use cmdqueue::config::RunnerConfig;
use cmdqueue::config::validate_jobs;

#[test]
fn serial_named_file_inherits_all_streams() {
    let c = RunnerConfig::from_settings(1, true);
    assert!(c.inherit_output);
    assert!(c.inherit_input);
}

#[test]
fn serial_stdin_input_does_not_inherit_stdin() {
    let c = RunnerConfig::from_settings(1, false);
    assert!(c.inherit_output);
    assert!(!c.inherit_input);
}

#[test]
fn parallel_inherits_nothing() {
    let c = RunnerConfig::from_settings(2, true);
    assert!(!c.inherit_output);
    assert!(!c.inherit_input);

    let c = RunnerConfig::from_settings(8, false);
    assert!(!c.inherit_output);
    assert!(!c.inherit_input);
}

#[test]
fn zero_jobs_is_rejected_at_startup() {
    assert_eq!(validate_jobs(0), Err(ConfigError::ZeroJobs));
}

#[test]
fn positive_job_counts_are_accepted() {
    assert_eq!(validate_jobs(1), Ok(1));
    assert_eq!(validate_jobs(2), Ok(2));
    assert_eq!(validate_jobs(u16::MAX), Ok(u16::MAX));
}
