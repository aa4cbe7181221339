use alcatraz_guest::{
    allowed, authorize_channel, decode, digest, encode, greet, validate_build_request,
    validate_git_request, BuildRequest, Frame, GitRequest, Operation, ReplayGuard, Role,
    MAX_RECORD,
};

/// Reads a frame record as the JSON reader does: exactly the seven fields,
/// the operation by its wire name, the payload kept as its compact JSON text.
fn read_frame(line: &[u8]) -> Option<Frame> {
    let value: serde_json::Value = serde_json::from_slice(line).ok()?;
    let object = value.as_object()?;
    if object.len() != 7 {
        return None;
    }
    let text = |key: &str| -> Option<String> { Some(object.get(key)?.as_str()?.to_string()) };
    let operation = match object.get("operation")?.as_str()? {
        "submit_task" => Operation::SubmitTask,
        "status_query" => Operation::StatusQuery,
        "operator_review" => Operation::OperatorReview,
        "status" => Operation::Status,
        "result" => Operation::Result,
        "failure" => Operation::Failure,
        "fetch" => Operation::Fetch,
        "scoped_push" => Operation::ScopedPush,
        "send_bundle" => Operation::SendBundle,
        "check" => Operation::Check,
        "test" => Operation::Test,
        "run" => Operation::Run,
        "reset" => Operation::Reset,
        _ => return None,
    };
    Some(Frame {
        version: u8::try_from(object.get("version")?.as_u64()?).ok()?,
        channel: text("channel")?,
        request_id: text("request_id")?,
        operation,
        nonce: text("nonce")?,
        payload_sha256: text("payload_sha256")?,
        payload: serde_json::to_vec(object.get("payload")?).ok()?,
    })
}

fn decode_line(line: &[u8]) -> Result<Frame, String> {
    decode(line, read_frame(line))
}

fn xy_payload() -> Vec<u8> {
    let mut object = serde_json::Map::new();
    object.insert("x".to_string(), serde_json::Value::String("y".to_string()));
    serde_json::to_vec(&serde_json::Value::Object(object)).unwrap()
}

fn frame(op: Operation) -> Frame {
    let p = xy_payload();
    Frame {
        version: 1,
        channel: "codex-to-build".into(),
        request_id: "r".into(),
        operation: op,
        nonce: "n".into(),
        payload_sha256: digest(&p),
        payload: p,
    }
}

#[test]
fn greeting_is_exact() {
    assert_eq!(greet("Alcatraz"), "Hello, Alcatraz!");
}

#[test]
fn lib_greeting_is_exact() {
    assert_eq!(greet("Alcatraz"), "Hello, Alcatraz!");
}

#[test]
fn greeting_handles_empty_names() {
    assert_eq!(greet(""), "Hello, !");
}

#[test]
fn greeting_preserves_name_content() {
    assert_eq!(greet("Ada Lovelace"), "Hello, Ada Lovelace!");
    assert_eq!(greet("R&D!"), "Hello, R&D!!");
}

#[test]
fn round_trip() {
    let f = frame(Operation::Check);
    assert_eq!(decode_line(&encode(&f).unwrap()).unwrap().request_id, "r");
}

#[test]
fn malformed_and_unframed_records_fail_closed() {
    assert!(decode_line(b"not-json\n").is_err());
    let f = frame(Operation::Check);
    let mut bytes = encode(&f).unwrap();
    bytes.pop();
    assert!(decode_line(&bytes).is_err());
}

#[test]
fn unknown_fields_fail_closed() {
    let mut bytes = encode(&frame(Operation::Check)).unwrap();
    bytes.insert(bytes.len() - 1, b'}');
    assert!(decode_line(&bytes).is_err());
}

#[test]
fn oversized_records_fail_closed() {
    assert!(decode_line(&vec![b'x'; MAX_RECORD + 1]).is_err());
}

#[test]
fn denies_spoke_to_spoke() {
    assert!(!allowed(Role::VibeKanban, Role::Build, Operation::SubmitTask));
}

#[test]
fn replay_is_rejected() {
    let mut g = ReplayGuard::default();
    assert!(g.accept("n"));
    assert!(!g.accept("n"));
}

#[test]
fn digest_and_size_are_checked() {
    let mut f = frame(Operation::Check);
    f.payload_sha256 = "bad".into();
    assert!(encode(&f).is_err());
}

#[test]
fn channel_identity_authorizes_before_payload() {
    assert!(authorize_channel("vibe-to-codex", Operation::SubmitTask).is_ok());
    assert!(authorize_channel("vibe-to-codex", Operation::Run).is_err());
    assert!(authorize_channel("vibe-to-git", Operation::Status).is_err());
}

#[test]
fn spoke_to_spoke_matrix_is_empty() {
    for source in [Role::VibeKanban, Role::Git, Role::Build] {
        for destination in [Role::VibeKanban, Role::Git, Role::Build] {
            if source != destination {
                assert!(!allowed(source, destination, Operation::Status));
                assert!(!allowed(source, destination, Operation::Result));
            }
        }
    }
}

#[test]
fn git_policy_rejects_force_path_traversal_and_remote_escape() {
    let good = GitRequest {
        repository: "repos/app".into(),
        remote: "ssh://git.example/".into(),
        branch: "main".into(),
        force: false,
    };
    assert!(validate_git_request(&good, "ssh://git.example/").is_ok());
    assert!(validate_git_request(
        &GitRequest {
            repository: "../secret".into(),
            ..good.clone()
        },
        "ssh://git.example/"
    )
    .is_err());
    assert!(validate_git_request(
        &GitRequest {
            force: true,
            ..good.clone()
        },
        "ssh://git.example/"
    )
    .is_err());
    assert!(validate_git_request(
        &GitRequest {
            remote: "ssh://evil.example/".into(),
            ..good
        },
        "ssh://git.example/"
    )
    .is_err());
}

#[test]
fn build_policy_accepts_named_operations_and_rejects_shell_like_inputs() {
    let good = BuildRequest {
        workspace: "workspace/app".into(),
        operation: Operation::Check,
        bundle_sha256: "a".repeat(64),
    };
    assert!(validate_build_request(&good).is_ok());
    assert!(validate_build_request(&BuildRequest {
        workspace: "/host".into(),
        ..good.clone()
    })
    .is_err());
    assert!(validate_build_request(&BuildRequest {
        workspace: "workspace/app".into(),
        operation: Operation::Status,
        ..good
    })
    .is_err());
}
