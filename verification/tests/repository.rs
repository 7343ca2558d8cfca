use dotstrap::infrastructure::command::RecordingCommandExecutor;
use dotstrap::errors::DotstrapError;
use dotstrap::infrastructure::repository::{
    clone_args, clone_remote, clone_result, resolve_repository,
};
use std::path::Path;

#[test]
fn resolve_repository_returns_canonical_path_for_existing_directory() {
    let mut executor = RecordingCommandExecutor::default();
    let tempdir = tempfile::tempdir().expect("failed to create temporary directory");
    let expected = tempdir
        .path()
        .canonicalize()
        .expect("failed to canonicalize tempdir path");

    let handle = resolve_repository(
        tempdir.path().to_str().unwrap(),
        Some(expected.to_str().unwrap().to_string()),
        "/unused",
        &mut executor,
    )
    .expect("expected repository resolution to succeed");

    assert_eq!(Path::new(handle.path()), expected.as_path());
    assert!(Path::new(handle.path()).exists());
    assert!(executor.calls().is_empty());
}

#[test]
fn resolve_repository_clones_remote_source() {
    let mut executor = RecordingCommandExecutor::default();
    let source = "git@github.com:example/dotstrap-test.git";
    let scratch = tempfile::tempdir().expect("failed to create temporary directory");

    let handle = resolve_repository(source, None, scratch.path().to_str().unwrap(), &mut executor)
        .expect("expected remote repository resolution to succeed");

    let calls = executor.calls();
    assert_eq!(calls.len(), 1);
    let (program, args) = &calls[0];
    assert_eq!(program, "git");
    assert_eq!(args.len(), 5);
    assert_eq!(args[0], "clone");
    assert_eq!(args[1], "--depth");
    assert_eq!(args[2], "1");
    assert_eq!(args[3], source);
    let expected_target = Path::new(handle.path()).display().to_string();
    assert_eq!(args[4], expected_target);

    assert!(Path::new(handle.path()).ends_with("repo"));
    let tempdir_parent = Path::new(handle.path())
        .parent()
        .expect("repo directory should have a parent");
    assert!(tempdir_parent.exists());
}

#[test]
fn failed_clone_is_passed_on() {
    let mut executor = RecordingCommandExecutor::with_failure("git");
    assert!(clone_remote("https://example.org/r.git", "/scratch", &mut executor).is_err());
    assert_eq!(executor.calls().len(), 1);
    let mut working = RecordingCommandExecutor::default();
    let handle = clone_remote("https://example.org/r.git", "/scratch", &mut working).unwrap();
    assert_eq!(handle.path(), "/scratch/repo");
    assert_eq!(handle.path, "/scratch/repo");
}

#[test]
fn clone_arguments_and_what_the_answer_means() {
    assert_eq!(
        clone_args("https://example.org/r.git", "/scratch/repo"),
        vec!["clone", "--depth", "1", "https://example.org/r.git", "/scratch/repo"]
    );
    let handle = clone_result(Ok(()), "/scratch/repo".to_string()).unwrap();
    assert_eq!(handle.path(), "/scratch/repo");
    let failed = clone_result(
        Err(DotstrapError::CommandFailed {
            program: "git".to_string(),
            status: 128,
        }),
        "/scratch/repo".to_string(),
    );
    assert!(matches!(
        failed,
        Err(DotstrapError::CommandFailed { program, status }) if program == "git" && status == 128
    ));
}
