use comm_node::errors::RouteError;
use comm_node::message::Message;
use comm_node::router::parse_completion_signal;
use comm_node::watcher::is_message_file;

#[test]
fn parse_full_message() {
    let text = "---\nfrom: writer\nto: critic\ntype: critique-request\ntask: t-1\npriority: high\nartifacts: [draft.md, notes.md]\n---\nplease comment";
    let m = Message::parse(text).unwrap();
    assert_eq!(m.from.as_str(), "writer");
    assert_eq!(m.to.as_str(), "critic");
    assert_eq!(m.msg_type, "critique-request");
    assert_eq!(m.task, "t-1");
    assert_eq!(m.priority, "high");
    assert_eq!(m.artifacts, vec!["draft.md".to_string(), "notes.md".to_string()]);
    assert_eq!(m.body, "please comment");
}

#[test]
fn parse_defaults_optional_fields() {
    let text = "---\nfrom: a\nto: b\ntype: note\n---\nhello";
    let m = Message::parse(text).unwrap();
    assert_eq!(m.task, "");
    assert_eq!(m.priority, "");
    assert!(m.artifacts.is_empty());
    assert_eq!(m.body, "hello");
}

#[test]
fn parse_empty_artifacts_list() {
    let text = "---\nfrom: a\nto: b\ntype: note\nartifacts: []\n---\nx";
    let m = Message::parse(text).unwrap();
    assert!(m.artifacts.is_empty());
}

#[test]
fn parse_rejects_missing_markers() {
    let text = "from: a\nto: b\ntype: note\nbody only";
    assert!(matches!(Message::parse(text), Err(RouteError::MalformedMessage)));
    let one_marker = "---\nfrom: a\nto: b\ntype: note\n";
    assert!(matches!(Message::parse(one_marker), Err(RouteError::MalformedMessage)));
}

#[test]
fn parse_rejects_missing_required_field() {
    let text = "---\nfrom: a\ntype: note\n---\nbody";
    assert!(matches!(Message::parse(text), Err(RouteError::MalformedMessage)));
}

#[test]
fn parse_rejects_header_line_without_separator() {
    let text = "---\nfrom: a\nto: b\ntype note\n---\nbody";
    assert!(matches!(Message::parse(text), Err(RouteError::MalformedMessage)));
}

#[test]
fn parse_rejects_unclosed_artifact_list() {
    let text = "---\nfrom: a\nto: b\ntype: note\nartifacts: [draft.md\n---\nbody";
    assert!(matches!(Message::parse(text), Err(RouteError::MalformedMessage)));
}

#[test]
fn parse_ignores_unknown_keys_and_blank_lines() {
    let text = "---\n\nfrom: a\ncolor: blue\nto: b\n\ntype: note\n---\nbody";
    let m = Message::parse(text).unwrap();
    assert_eq!(m.from.as_str(), "a");
    assert_eq!(m.msg_type, "note");
}

#[test]
fn completion_signal_filenames() {
    assert_eq!(parse_completion_signal("completion-task-42.md").as_deref(), Some("task-42"));
    assert_eq!(parse_completion_signal("completion-.md"), None);
    assert_eq!(parse_completion_signal("note.md"), None);
    assert_eq!(parse_completion_signal("completion-x.txt"), None);
}

#[test]
fn message_filename_filter() {
    assert!(is_message_file("note.md"));
    assert!(is_message_file("NOTE.MD"));
    assert!(is_message_file("a.Md"));
    assert!(!is_message_file("note.txt"));
    assert!(!is_message_file(".md"));
    assert!(!is_message_file("md"));
    assert!(!is_message_file("note.mdx"));
}
