use lab::commands::cd::commands_for_outcome;
use lab::tui::TuiOutcome;

#[test]
fn test_commands_for_cancelled_outcome_return_none() {
    let dir = tempfile::tempdir().expect("tempdir");

    let commands = commands_for_outcome(&TuiOutcome::Cancelled, dir.path().to_str().unwrap());

    assert!(commands.is_none());
}

#[test]
fn test_create_outcome_uses_mkdir_commands_when_labs_path_is_not_git_repo() {
    let dir = tempfile::tempdir().expect("tempdir");
    let path = dir.path().join("2026-04-13-feature");

    let commands = commands_for_outcome(&TuiOutcome::Create(path.to_string_lossy().into_owned()), dir.path().to_str().unwrap())
        .expect("create commands");

    assert_eq!(
        commands[0],
        format!("mkdir -p '{}'", path.to_string_lossy())
    );
    assert!(commands
        .iter()
        .all(|command| !command.contains("worktree add")));
}

#[test]
fn test_delete_outcome_uses_batch_delete_script() {
    let dir = tempfile::tempdir().expect("tempdir");
    let commands = commands_for_outcome(
        &TuiOutcome::Delete(lab::tui::app::DeleteSelection {
            base_path: dir.path().to_string_lossy().into_owned(),
            basenames: vec!["alpha".to_string(), "beta".to_string()],
        }),
        dir.path().to_str().unwrap(),
    )
    .expect("delete commands");

    assert_eq!(
        commands[0],
        format!("cd '{}'", dir.path().to_string_lossy())
    );
    assert_eq!(commands[1], "test -d 'alpha' && rm -rf 'alpha'");
    assert_eq!(commands[2], "test -d 'beta' && rm -rf 'beta'");
    assert!(
        commands[3].ends_with(&format!("|| cd '{}'", dir.path().to_string_lossy())),
        "expected restore command to fall back to labs path, got {:?}",
        commands[3]
    );
}
