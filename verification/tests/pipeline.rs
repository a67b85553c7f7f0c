use edmv::config::Config;
use edmv::error::Error;
use edmv::plan::DestStat;
use edmv::session::{start, Action, Event, Session};

fn config_of(paths: &[&str], editor: &str) -> Config {
    Config {
        paths: paths.iter().map(|p| p.to_string()).collect(),
        editor: editor.to_string(),
    }
}

/// Drives a fresh session up to the point where the editor has exited
/// successfully and the buffer is about to be read back.
fn session_at_read(paths: &[&str]) -> (Session, String) {
    let (session, action) = start(config_of(paths, "true"));
    let expected: Vec<String> = paths.iter().map(|p| p.to_string()).collect();
    match action {
        Action::StatSources { paths: p } => assert_eq!(p, expected),
        other => panic!("unexpected action: {:?}", action_name(&other)),
    }
    let outcomes = vec![None; paths.len()];
    let (session, action) = session.step(Event::SourcesChecked { outcomes });
    assert!(matches!(action, Action::CreateBuffer));
    let (session, action) = session.step(Event::BufferCreated { path: "/tmp/edit.txt".to_string() });
    let contents = match action {
        Action::WriteBuffer { buffer, contents } => {
            assert_eq!(buffer, "/tmp/edit.txt");
            contents
        }
        other => panic!("unexpected action: {:?}", action_name(&other)),
    };
    let (session, action) = session.step(Event::BufferWritten);
    match action {
        Action::RunEditor { editor, buffer } => {
            assert_eq!(editor, "true");
            assert_eq!(buffer, "/tmp/edit.txt");
        }
        other => panic!("unexpected action: {:?}", action_name(&other)),
    }
    let (session, action) = session.step(Event::EditorExited { success: true, code: Some(0) });
    match action {
        Action::ReadBuffer { buffer } => assert_eq!(buffer, "/tmp/edit.txt"),
        other => panic!("unexpected action: {:?}", action_name(&other)),
    }
    (session, contents)
}

fn action_name(action: &Action) -> &'static str {
    match action {
        Action::StatSources { .. } => "StatSources",
        Action::CreateBuffer => "CreateBuffer",
        Action::WriteBuffer { .. } => "WriteBuffer",
        Action::RunEditor { .. } => "RunEditor",
        Action::ReadBuffer { .. } => "ReadBuffer",
        Action::StatDestinations { .. } => "StatDestinations",
        Action::DoRename { .. } => "DoRename",
        Action::Succeed { .. } => "Succeed",
        Action::Fail { .. } => "Fail",
    }
}

#[test]
fn unchanged_buffer_is_a_noop_success() {
    let (session, contents) = session_at_read(&["foo", "bar", "roo"]);
    assert_eq!(contents, "foo\nbar\nroo\n");
    let (_, action) = session.step(Event::BufferRead { text: contents });
    match action {
        Action::Succeed { nothing_to_do } => assert!(nothing_to_do),
        other => panic!("unexpected action: {:?}", action_name(&other)),
    }
}

#[test]
fn line_count_mismatch_fails_with_both_counts() {
    let (session, _) = session_at_read(&["a", "b"]);
    let (_, action) = session.step(Event::BufferRead { text: "x\n".to_string() });
    match action {
        Action::Fail { error: Error::LineCount { file_count, line_count } } => {
            assert_eq!(file_count, 2);
            assert_eq!(line_count, 1);
        }
        other => panic!("unexpected action: {:?}", action_name(&other)),
    }
}

#[test]
fn existing_destination_blocks_every_rename() {
    let (session, _) = session_at_read(&["a", "b"]);
    let (session, action) = session.step(Event::BufferRead { text: "b\na\n".to_string() });
    match action {
        Action::StatDestinations { destinations } => assert_eq!(destinations, vec!["b", "a"]),
        other => panic!("unexpected action: {:?}", action_name(&other)),
    }
    let outcomes = vec![DestStat::Exists, DestStat::NotFound];
    let (_, action) = session.step(Event::DestinationsChecked { outcomes });
    match action {
        Action::Fail { error: Error::BadDestinations { errors } } => {
            assert_eq!(errors.len(), 1);
            assert_eq!(errors[0].0, "b");
            assert!(errors[0].1.is_none());
        }
        other => panic!("unexpected action: {:?}", action_name(&other)),
    }
}

#[test]
fn unreadable_destination_is_a_conflict_with_its_error() {
    let (session, _) = session_at_read(&["a"]);
    let (session, action) = session.step(Event::BufferRead { text: "locked/a\n".to_string() });
    assert!(matches!(action, Action::StatDestinations { .. }));
    let outcomes = vec![DestStat::Failed { error: "Permission denied (os error 13)".to_string() }];
    let (_, action) = session.step(Event::DestinationsChecked { outcomes });
    match action {
        Action::Fail { error: Error::BadDestinations { errors } } => {
            assert_eq!(errors.len(), 1);
            assert_eq!(errors[0].0, "locked/a");
            assert_eq!(errors[0].1.as_deref(), Some("Permission denied (os error 13)"));
        }
        other => panic!("unexpected action: {:?}", action_name(&other)),
    }
}

#[test]
fn missing_source_fails_with_every_failure() {
    let (session, action) = start(config_of(&["a", "b", "c"], "vi"));
    assert!(matches!(action, Action::StatSources { .. }));
    let outcomes = vec![
        Some("No such file or directory (os error 2)".to_string()),
        None,
        Some("Permission denied (os error 13)".to_string()),
    ];
    let (_, action) = session.step(Event::SourcesChecked { outcomes });
    match action {
        Action::Fail { error: Error::BadSources { errors } } => {
            assert_eq!(errors.len(), 2);
            assert_eq!(errors[0].0, "a");
            assert_eq!(errors[0].1, "No such file or directory (os error 2)");
            assert_eq!(errors[1].0, "c");
            assert_eq!(errors[1].1, "Permission denied (os error 13)");
        }
        other => panic!("unexpected action: {:?}", action_name(&other)),
    }
}

#[test]
fn renames_run_in_plan_order_and_skip_noops() {
    let (session, _) = session_at_read(&["a", "keep", "b"]);
    let (session, action) = session.step(Event::BufferRead { text: "c\nkeep\nd\n".to_string() });
    match action {
        Action::StatDestinations { destinations } => assert_eq!(destinations, vec!["c", "d"]),
        other => panic!("unexpected action: {:?}", action_name(&other)),
    }
    let outcomes = vec![DestStat::NotFound, DestStat::NotFound];
    let (session, action) = session.step(Event::DestinationsChecked { outcomes });
    match action {
        Action::DoRename { from, to } => {
            assert_eq!(from, "a");
            assert_eq!(to, "c");
        }
        other => panic!("unexpected action: {:?}", action_name(&other)),
    }
    let (session, action) = session.step(Event::Renamed);
    match action {
        Action::DoRename { from, to } => {
            assert_eq!(from, "b");
            assert_eq!(to, "d");
        }
        other => panic!("unexpected action: {:?}", action_name(&other)),
    }
    let (_, action) = session.step(Event::Renamed);
    match action {
        Action::Succeed { nothing_to_do } => assert!(!nothing_to_do),
        other => panic!("unexpected action: {:?}", action_name(&other)),
    }
}

#[test]
fn failed_rename_ends_the_run_without_rollback() {
    let (session, _) = session_at_read(&["a", "b"]);
    let (session, action) = session.step(Event::BufferRead { text: "c\nd\n".to_string() });
    assert!(matches!(action, Action::StatDestinations { .. }));
    let outcomes = vec![DestStat::NotFound, DestStat::NotFound];
    let (session, action) = session.step(Event::DestinationsChecked { outcomes });
    match action {
        Action::DoRename { from, to } => {
            assert_eq!(from, "a");
            assert_eq!(to, "c");
        }
        other => panic!("unexpected action: {:?}", action_name(&other)),
    }
    // The first rename has been performed; the second one fails.
    let (session, action) = session.step(Event::Renamed);
    match action {
        Action::DoRename { from, to } => {
            assert_eq!(from, "b");
            assert_eq!(to, "d");
        }
        other => panic!("unexpected action: {:?}", action_name(&other)),
    }
    let (_, action) = session.step(Event::RenameFailed {
        error: "File exists (os error 17)".to_string(),
    });
    // The failure reports the failing pair only; nothing asks to undo a -> c.
    match action {
        Action::Fail { error: Error::Rename { io_error, from, to } } => {
            assert_eq!(from, "b");
            assert_eq!(to, "d");
            assert_eq!(io_error, "File exists (os error 17)");
        }
        other => panic!("unexpected action: {:?}", action_name(&other)),
    }
}

#[test]
fn editor_spawn_failure_reports_the_command() {
    let (session, action) = start(config_of(&["f"], "fake-editor"));
    assert!(matches!(action, Action::StatSources { .. }));
    let (session, _) = session.step(Event::SourcesChecked { outcomes: vec![None] });
    let (session, _) = session.step(Event::BufferCreated { path: "/tmp/edit.txt".to_string() });
    let (session, _) = session.step(Event::BufferWritten);
    let (_, action) = session.step(Event::EditorSpawnFailed {
        error: "No such file or directory (os error 2)".to_string(),
    });
    match action {
        Action::Fail { error: Error::EditorInvocation { io_error, editor_command } } => {
            assert_eq!(editor_command, "fake-editor");
            assert_eq!(io_error, "No such file or directory (os error 2)");
        }
        other => panic!("unexpected action: {:?}", action_name(&other)),
    }
}

#[test]
fn editor_nonzero_status_reports_the_code() {
    let (session, action) = start(config_of(&["f"], "false"));
    assert!(matches!(action, Action::StatSources { .. }));
    let (session, _) = session.step(Event::SourcesChecked { outcomes: vec![None] });
    let (session, _) = session.step(Event::BufferCreated { path: "/tmp/edit.txt".to_string() });
    let (session, _) = session.step(Event::BufferWritten);
    let (_, action) = session.step(Event::EditorExited { success: false, code: Some(1) });
    match action {
        Action::Fail { error: Error::EditorStatus { status } } => assert_eq!(status, Some(1)),
        other => panic!("unexpected action: {:?}", action_name(&other)),
    }
}

#[test]
fn buffer_failures_carry_the_buffer_path() {
    let (session, _) = session_at_read(&["f"]);
    let (_, action) = session.step(Event::BufferOpenFailed {
        error: "Permission denied (os error 13)".to_string(),
    });
    match action {
        Action::Fail { error: Error::TempfileOpen { io_error, path } } => {
            assert_eq!(path, "/tmp/edit.txt");
            assert_eq!(io_error, "Permission denied (os error 13)");
        }
        other => panic!("unexpected action: {:?}", action_name(&other)),
    }
}

#[test]
fn failed_buffer_creation_reports_the_directory() {
    let (session, _) = start(config_of(&["f"], "vi"));
    let (session, _) = session.step(Event::SourcesChecked { outcomes: vec![None] });
    let (_, action) = session.step(Event::BufferCreateFailed {
        dir_path: "/tmp".to_string(),
        error: "Permission denied (os error 13)".to_string(),
    });
    match action {
        Action::Fail { error: Error::TempfileCreation { io_error, dir_path } } => {
            assert_eq!(dir_path, "/tmp");
            assert_eq!(io_error, "Permission denied (os error 13)");
        }
        other => panic!("unexpected action: {:?}", action_name(&other)),
    }
}

#[test]
fn failed_buffer_write_reports_the_buffer_path() {
    let (session, _) = start(config_of(&["f"], "vi"));
    let (session, _) = session.step(Event::SourcesChecked { outcomes: vec![None] });
    let (session, _) = session.step(Event::BufferCreated { path: "/tmp/edit.txt".to_string() });
    let (_, action) = session.step(Event::BufferWriteFailed {
        error: "No space left on device (os error 28)".to_string(),
    });
    match action {
        Action::Fail { error: Error::TempfileWrite { io_error, path } } => {
            assert_eq!(path, "/tmp/edit.txt");
            assert_eq!(io_error, "No space left on device (os error 28)");
        }
        other => panic!("unexpected action: {:?}", action_name(&other)),
    }
}

#[test]
fn failed_buffer_read_reports_the_buffer_path() {
    let (session, _) = session_at_read(&["f"]);
    let (_, action) = session.step(Event::BufferReadFailed {
        error: "stream did not contain valid UTF-8".to_string(),
    });
    match action {
        Action::Fail { error: Error::TempfileRead { io_error, path } } => {
            assert_eq!(path, "/tmp/edit.txt");
            assert_eq!(io_error, "stream did not contain valid UTF-8");
        }
        other => panic!("unexpected action: {:?}", action_name(&other)),
    }
}

#[test]
fn editor_killed_by_signal_reports_unknown_status() {
    let (session, _) = start(config_of(&["f"], "vi"));
    let (session, _) = session.step(Event::SourcesChecked { outcomes: vec![None] });
    let (session, _) = session.step(Event::BufferCreated { path: "/tmp/edit.txt".to_string() });
    let (session, _) = session.step(Event::BufferWritten);
    let (_, action) = session.step(Event::EditorExited { success: false, code: None });
    match action {
        Action::Fail { error: Error::EditorStatus { status } } => assert_eq!(status, None),
        other => panic!("unexpected action: {:?}", action_name(&other)),
    }
}
