use bonsai::error::CustomError;
use bonsai::process::{
    exit_result, level_for, next_action, tag_line, tag_lines, CompileJobResult, LogLevel,
    ProcessOutcome, StreamKind, SupervisorAction,
};

#[test]
fn lines_are_tagged_with_the_stage() {
    assert_eq!(tag_line("[SHDC]", "compiling shader.glsl"), "[SHDC] compiling shader.glsl");
    assert_eq!(tag_line("[ODIN]", ""), "[ODIN] ");
    let lines = vec!["one".to_string(), "two".to_string()];
    assert_eq!(tag_lines("[X]", &lines), vec!["[X] one".to_string(), "[X] two".to_string()]);
    assert_eq!(tag_lines("[X]", &Vec::new()), Vec::<String>::new());
}

#[test]
fn standard_output_is_informational_and_standard_error_is_an_error() {
    assert_eq!(level_for(StreamKind::Stdout), LogLevel::Info);
    assert_eq!(level_for(StreamKind::Stderr), LogLevel::Error);
}

#[test]
fn clean_exit_is_success() {
    assert!(exit_result("odin", &ProcessOutcome::Exited { success: true }).is_ok());
}

#[test]
fn failed_exit_is_a_build_error_that_names_the_command() {
    let err = exit_result("odin", &ProcessOutcome::Exited { success: false }).unwrap_err();
    assert!(matches!(err, CustomError::BuildError(_)));
    assert_eq!(err.message(), "Build failed: odin failed");
}

#[test]
fn spawn_and_wait_failures_are_process_errors() {
    let spawn =
        exit_result("sokol-shdc", &ProcessOutcome::SpawnFailed("not found".to_string())).unwrap_err();
    assert!(matches!(spawn, CustomError::ProcessError(_)));
    assert_eq!(spawn.message(), "Process execution failed: Failed to start sokol-shdc: not found");
    let wait =
        exit_result("sokol-shdc", &ProcessOutcome::WaitFailed("interrupted".to_string())).unwrap_err();
    assert!(matches!(wait, CustomError::ProcessError(_)));
    assert_eq!(wait.message(), "Process execution failed: Failed to wait for sokol-shdc: interrupted");
}

#[test]
fn supervisor_reads_both_streams_before_it_waits_and_joins_before_it_judges() {
    let mut actions = Vec::new();
    let mut done = 0;
    while let Some(action) = next_action(done) {
        actions.push(action);
        done += 1;
    }
    assert_eq!(
        actions,
        vec![
            SupervisorAction::Spawn,
            SupervisorAction::StartReader(StreamKind::Stdout),
            SupervisorAction::StartReader(StreamKind::Stderr),
            SupervisorAction::Wait,
            SupervisorAction::JoinReader(StreamKind::Stdout),
            SupervisorAction::JoinReader(StreamKind::Stderr),
            SupervisorAction::Inspect,
        ]
    );
    assert_eq!(next_action(7), None);
    assert_eq!(next_action(usize::MAX), None);
}

#[test]
fn job_succeeded_only_with_exit_code_zero() {
    let mut job = CompileJobResult {
        command: "clang".to_string(),
        exit_status: Some(0),
        stdout_lines: Vec::new(),
        stderr_lines: Vec::new(),
    };
    assert!(job.succeeded());
    job.exit_status = Some(1);
    assert!(!job.succeeded());
    job.exit_status = None;
    assert!(!job.succeeded());
}
