use asimov_cli::{Help, Termination};

#[test]
fn description_and_usage() {
    let d = Help::describe_one(
        "hello".to_string(),
        "Prints a greeting\n\nUsage: asimov-hello [OPTIONS]\n\nOptions:\n",
    );
    assert_eq!(d.name, "hello");
    assert_eq!(d.description, "Prints a greeting");
    assert_eq!(d.usage.as_deref(), Some("Usage: asimov-hello [OPTIONS]"));
}

#[test]
fn missing_usage_line() {
    let d = Help::describe_one("x".to_string(), "Only a description");
    assert_eq!(d.description, "Only a description");
    assert_eq!(d.usage, None);
}

#[test]
fn empty_help_text_gives_empty_fields() {
    let d = Help::describe_one("x".to_string(), "");
    assert_eq!(d.description, "");
    assert_eq!(d.usage, None);
}

#[test]
fn crlf_line_endings() {
    let d = Help::describe_one("x".to_string(), "Desc\r\nUsage: x\r\n");
    assert_eq!(d.description, "Desc");
    assert_eq!(d.usage.as_deref(), Some("Usage: x"));
}

#[test]
fn usage_marker_must_open_the_line() {
    let d = Help::describe_one("x".to_string(), "Desc\n  Usage: x\nUsage: y\nUsage: z");
    assert_eq!(d.usage.as_deref(), Some("Usage: y"));
}

#[test]
fn first_line_may_be_the_usage() {
    let d = Help::describe_one("x".to_string(), "Usage: x\n");
    assert_eq!(d.description, "Usage: x");
    assert_eq!(d.usage.as_deref(), Some("Usage: x"));
}

#[test]
fn describe_keeps_order() {
    let outs = vec![
        ("b".to_string(), "B tool\nUsage: b".to_string()),
        ("a".to_string(), "A tool".to_string()),
    ];
    let ds = Help { is_debug: false }.describe(&outs);
    assert_eq!(ds.len(), 2);
    assert_eq!(ds[0].name, "b");
    assert_eq!(ds[0].usage.as_deref(), Some("Usage: b"));
    assert_eq!(ds[1].description, "A tool");
}

#[test]
fn help_entry_needs_success() {
    let name = "hello".to_string();
    let out = "Prints 'Hello, world!'\n".to_string();
    assert_eq!(
        Help::help_entry(&name, Termination::Exited(0), &out),
        Some((name.clone(), out.clone()))
    );
    assert_eq!(Help::help_entry(&name, Termination::Exited(1), &out), None);
    assert_eq!(Help::help_entry(&name, Termination::Signaled(9), &out), None);
}
