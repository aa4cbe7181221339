use alcatraz_guest::cli::command;
use alcatraz_guest::{Operation, MAX_PAYLOAD};

fn args(command: &str, value: &str) -> Vec<String> {
    vec![
        "--socket".into(),
        "/tmp/codex.vsock".into(),
        command.into(),
        value.into(),
    ]
}

#[test]
fn builds_only_named_vibe_operations() {
    let (_, port, op, payload) = command(&args("submit-task", "hello")).unwrap();
    assert_eq!(port, 7000);
    assert_eq!(op, Operation::SubmitTask);
    let payload: serde_json::Value = serde_json::from_slice(&payload).unwrap();
    assert_eq!(payload["task"], "hello");
    assert_eq!(
        command(&args("shell", "id")).unwrap_err(),
        "command is not an allowlisted Vibe operation"
    );
}

#[test]
fn rejects_bad_endpoint_options_and_oversized_argument() {
    assert!(command(&["--port".into(), "22".into(), "status".into(), "x".into()]).is_err());
    assert!(command(&[
        "--socket".into(),
        "/tmp/codex.vsock".into(),
        "status".into(),
        "x".into(),
        "extra".into()
    ])
    .is_err());
    let huge = "x".repeat(MAX_PAYLOAD + 1);
    assert!(command(&args("status", &huge)).is_err());
}
