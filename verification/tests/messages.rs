use edmv::error::Error;

#[test]
fn tempfile_creation_message() {
    let e = Error::TempfileCreation {
        io_error: "Permission denied (os error 13)".to_string(),
        dir_path: "/tmp".to_string(),
    };
    assert_eq!(e.message(), "Error creating tempfile in `/tmp`: Permission denied (os error 13)");
}

#[test]
fn tempfile_write_message() {
    let e = Error::TempfileWrite {
        io_error: "No space left on device (os error 28)".to_string(),
        path: "/tmp/edit.txt".to_string(),
    };
    assert_eq!(
        e.message(),
        "Error writing to tempfile `/tmp/edit.txt`: No space left on device (os error 28)"
    );
}

#[test]
fn tempfile_open_message() {
    let e = Error::TempfileOpen {
        io_error: "Permission denied (os error 13)".to_string(),
        path: "/tmp/edit.txt".to_string(),
    };
    assert_eq!(
        e.message(),
        "Error opening tempfile `/tmp/edit.txt`: Permission denied (os error 13)"
    );
}

#[test]
fn tempfile_read_message() {
    let e = Error::TempfileRead {
        io_error: "stream did not contain valid UTF-8".to_string(),
        path: "/tmp/edit.txt".to_string(),
    };
    assert_eq!(
        e.message(),
        "Error reading tempfile `/tmp/edit.txt`: stream did not contain valid UTF-8"
    );
}

#[test]
fn bad_sources_message_lists_every_failure() {
    let e = Error::BadSources {
        errors: vec![
            ("a".to_string(), "No such file or directory (os error 2)".to_string()),
            ("b".to_string(), "Permission denied (os error 13)".to_string()),
        ],
    };
    assert_eq!(
        e.message(),
        "Error accessing source files:\n\
         a: No such file or directory (os error 2)\n\
         b: Permission denied (os error 13)\n"
    );
}

#[test]
fn bad_destinations_message_tells_exists_from_failure() {
    let e = Error::BadDestinations {
        errors: vec![
            ("b".to_string(), None),
            ("c".to_string(), Some("Permission denied (os error 13)".to_string())),
        ],
    };
    assert_eq!(
        e.message(),
        "Error with destinations:\n\
         b: already exists\n\
         c: Permission denied (os error 13)\n"
    );
}

#[test]
fn editor_invocation_message() {
    let e = Error::EditorInvocation {
        io_error: "No such file or directory (os error 2)".to_string(),
        editor_command: "fake-editor".to_string(),
    };
    assert_eq!(
        e.message(),
        "Error invoking editor `fake-editor`: No such file or directory (os error 2)"
    );
}

#[test]
fn editor_status_message_with_code() {
    let e = Error::EditorStatus { status: Some(1) };
    assert_eq!(e.message(), "Editor failed with status code: 1");
}

#[test]
fn editor_status_message_with_negative_code() {
    let e = Error::EditorStatus { status: Some(-7) };
    assert_eq!(e.message(), "Editor failed with status code: -7");
}

#[test]
fn editor_status_message_without_code() {
    let e = Error::EditorStatus { status: None };
    assert_eq!(e.message(), "Editor failed with unknown status");
}

#[test]
fn line_count_message_carries_both_counts() {
    let e = Error::LineCount { file_count: 2, line_count: 1 };
    assert_eq!(e.message(), "Renaming 2 files but found 1 lines");
}

#[test]
fn line_count_message_with_larger_counts() {
    let e = Error::LineCount { file_count: 1234567890, line_count: 0 };
    assert_eq!(e.message(), "Renaming 1234567890 files but found 0 lines");
}

#[test]
fn rename_message_carries_the_pair() {
    let e = Error::Rename {
        io_error: "File exists (os error 17)".to_string(),
        from: "a".to_string(),
        to: "b".to_string(),
    };
    assert_eq!(e.message(), "Error renaming file `a` -> `b`: File exists (os error 17)");
}
