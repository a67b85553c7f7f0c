use edmv::buffer::{parse_lines, render_contents};

#[test]
fn render_writes_one_line_per_path() {
    let paths = vec!["foo".to_string(), "bar".to_string(), "roo".to_string()];
    assert_eq!(render_contents(&paths), "foo\nbar\nroo\n");
}

#[test]
fn render_of_no_paths_is_empty() {
    let paths: Vec<String> = Vec::new();
    assert_eq!(render_contents(&paths), "");
}

#[test]
fn round_trip_preserves_paths_and_order() {
    let paths = vec![
        "foo".to_string(),
        "dir/bar".to_string(),
        "weird name".to_string(),
        "".to_string(),
    ];
    let text = render_contents(&paths);
    assert_eq!(parse_lines(&text), paths);
}

#[test]
fn parse_splits_on_newlines() {
    assert_eq!(parse_lines("a\nb\nc\n"), vec!["a", "b", "c"]);
}

#[test]
fn parse_strips_carriage_return_before_newline() {
    assert_eq!(parse_lines("a\r\nb\n"), vec!["a", "b"]);
}

#[test]
fn parse_keeps_final_fragment_without_newline() {
    assert_eq!(parse_lines("a\nb"), vec!["a", "b"]);
    assert_eq!(parse_lines("a\nb\r"), vec!["a", "b\r"]);
}

#[test]
fn parse_of_empty_text_has_no_lines() {
    assert_eq!(parse_lines(""), Vec::<String>::new());
}

#[test]
fn parse_of_lone_newline_is_one_empty_line() {
    assert_eq!(parse_lines("\n"), vec![""]);
}
