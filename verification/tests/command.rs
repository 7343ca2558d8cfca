use dotstrap::errors::DotstrapError;
use dotstrap::infrastructure::command::{CommandExecutor, RecordingCommandExecutor};

#[test]
fn recording_executor_tracks_invocations() {
    let mut executor = RecordingCommandExecutor::default();

    executor.run("git", &["status", "--short"]).unwrap();
    executor.run("brew", &["update"]).unwrap();

    let calls = executor.calls();
    assert_eq!(calls.len(), 2);
    assert_eq!(
        calls[0],
        (
            "git".to_string(),
            vec!["status".to_string(), "--short".to_string()]
        )
    );
    assert_eq!(calls[1], ("brew".to_string(), vec!["update".to_string()]));
}

#[test]
fn recording_executor_can_be_configured_to_fail_specific_program() {
    let mut executor = RecordingCommandExecutor::with_failure("git");

    let error = executor
        .run("git", &["status"])
        .expect_err("expected failure for configured program");

    assert!(
        matches!(error, DotstrapError::CommandFailed { program, status } if program == "git" && status == 1)
    );

    let calls = executor.calls();
    assert_eq!(calls.len(), 1);
    assert_eq!(calls[0].0, "git");
    assert_eq!(calls[0].1, vec!["status".to_string()]);
}

#[test]
fn recording_executor_fails_only_the_configured_program() {
    let mut executor = RecordingCommandExecutor::with_failure("git");
    assert!(executor.run("brew", &["update"]).is_ok());
    assert!(executor.run("git", &[]).is_err());
    assert!(executor.run("gi", &["t"]).is_ok());
    let calls = executor.calls();
    assert_eq!(calls.len(), 3);
    assert_eq!(calls[1], ("git".to_string(), Vec::<String>::new()));
}
