use alcatraz_guest::paths::{resolve_repository, resolve_workspace};
use alcatraz_guest::executors::{admit_build_payload, admit_git_payload, git_after_location};
use alcatraz_guest::cli::{reply_payload, request_record, start, CliRefusal};
use alcatraz_guest::cli::{accept_reply, command, connect_line, handshake_accepted, request_frame};
use alcatraz_guest::line::{bounded_line_step, LineStep};
use alcatraz_guest::executors::{
    build_output, build_response, cargo_subcommand, git_command, git_output, git_response,
    make_frame, plan_build, BuildStep, CargoCommand, MAX_OUTPUT,
};
use alcatraz_guest::paths::within_root;
use alcatraz_guest::{
    allowed, authorize_channel, decode, digest, encode, validate_build_request,
    validate_git_request, BuildRequest, Frame, GitRequest, Operation, ReplayGuard, Role,
    MAX_PAYLOAD, MAX_RECORD,
};
use std::path::Path;

fn framed(channel: &str, payload: &[u8]) -> Frame {
    Frame {
        version: 1,
        channel: channel.into(),
        request_id: "r".into(),
        operation: Operation::Check,
        nonce: "n".into(),
        payload_sha256: digest(payload),
        payload: payload.to_vec(),
    }
}

fn git_request() -> GitRequest {
    GitRequest {
        repository: "repos/app".into(),
        remote: "ssh://git.example/app.git".into(),
        branch: "main".into(),
        force: false,
    }
}

fn build_request(op: Operation) -> BuildRequest {
    BuildRequest {
        workspace: "workspace/app".into(),
        operation: op,
        bundle_sha256: "0123456789abcdefABCDEF0123456789abcdef0123456789abcdef0123456789".into(),
    }
}

#[test]
fn digest_is_lowercase_sha256_hex() {
    assert_eq!(
        digest(b""),
        "e3b0c44298fc1c149afbf4c8996fb92427ae41e4649b934ca495991b7852b855"
    );
    assert_eq!(
        digest(b"abc"),
        "ba7816bf8f01cfea414140de5dae2223b00361a396177a9cb410ff61f20015ad"
    );
}

#[test]
fn encode_writes_the_compact_record_line() {
    let f = framed("codex-to-build", b"{\"x\":\"y\"}");
    let expected = format!(
        "{{\"version\":1,\"channel\":\"codex-to-build\",\"request_id\":\"r\",\"operation\":\"check\",\"nonce\":\"n\",\"payload_sha256\":\"{}\",\"payload\":{{\"x\":\"y\"}}}}\n",
        digest(b"{\"x\":\"y\"}")
    );
    assert_eq!(encode(&f).unwrap(), expected.into_bytes());
}

#[test]
fn encode_escapes_strings_as_json_does() {
    let mut f = framed("a\"b\\c\nd\u{1f}e\u{7f}é", b"null");
    f.request_id = "\t\r\u{8}\u{c}".into();
    let line = encode(&f).unwrap();
    let text = String::from_utf8(line.clone()).unwrap();
    assert!(text.contains("\"channel\":\"a\\\"b\\\\c\\nd\\u001fe\u{7f}é\""));
    assert!(text.contains("\"request_id\":\"\\t\\r\\b\\f\""));
    let value: serde_json::Value = serde_json::from_slice(&line).unwrap();
    assert_eq!(value["channel"], "a\"b\\c\nd\u{1f}e\u{7f}é");
    assert_eq!(value["request_id"], "\t\r\u{8}\u{c}");
    assert_eq!(line.iter().filter(|b| **b == b'\n').count(), 1);
}

#[test]
fn encode_reports_each_refusal() {
    let big = vec![b'1'; MAX_PAYLOAD + 1];
    assert_eq!(encode(&framed("c", &big)).unwrap_err(), "payload too large");
    let mut f = framed("c", b"1");
    f.version = 2;
    assert_eq!(encode(&f).unwrap_err(), "invalid frame bounds");
    let mut f = framed("c", b"1");
    f.request_id = String::new();
    assert_eq!(encode(&f).unwrap_err(), "invalid frame bounds");
    let mut f = framed("c", b"1");
    f.nonce = "n".repeat(129);
    assert_eq!(encode(&f).unwrap_err(), "invalid frame bounds");
    let mut f = framed("c", b"1");
    f.nonce = "n".repeat(128);
    assert!(encode(&f).is_ok());
    assert_eq!(encode(&framed(&"c".repeat(65), b"1")).unwrap_err(), "invalid frame bounds");
    assert!(encode(&framed(&"c".repeat(64), b"1")).is_ok());
    let mut f = framed("c", b"1");
    f.payload_sha256 = digest(b"2");
    assert_eq!(encode(&f).unwrap_err(), "payload digest mismatch");
    let exact = vec![b'1'; MAX_PAYLOAD];
    assert!(encode(&framed("c", &exact)).unwrap().len() <= MAX_RECORD);
}

#[test]
fn decode_reports_each_refusal() {
    let good = framed("codex-to-build", b"{}");
    let line = encode(&good).unwrap();
    assert_eq!(decode(&line, Some(good.clone())).unwrap().nonce, "n");
    assert_eq!(
        decode(&vec![b'\n'; MAX_RECORD + 1], Some(good.clone())).unwrap_err(),
        "record too large"
    );
    assert_eq!(
        decode(&line[..line.len() - 1], Some(good.clone())).unwrap_err(),
        "missing record delimiter"
    );
    assert_eq!(decode(b"", Some(good.clone())).unwrap_err(), "missing record delimiter");
    assert_eq!(decode(&line, None).unwrap_err(), "malformed json");
    let mut tampered = good;
    tampered.payload = b"[]".to_vec();
    assert_eq!(decode(&line, Some(tampered)).unwrap_err(), "payload digest mismatch");
}

#[test]
fn authorization_messages_name_the_refusal() {
    assert_eq!(authorize_channel("vibe-to-git", Operation::Status).unwrap_err(), "unknown channel");
    assert_eq!(
        authorize_channel("codex-to-build", Operation::SubmitTask).unwrap_err(),
        "operation denied on channel"
    );
    assert_eq!(
        authorize_channel("build-to-codex", Operation::Result).unwrap(),
        (Role::Build, Role::Codex)
    );
    assert_eq!(
        authorize_channel("codex-to-git", Operation::ScopedPush).unwrap(),
        (Role::Codex, Role::Git)
    );
    assert!(authorize_channel("codex-to-vibe ", Operation::Result).is_err());
}

#[test]
fn every_permitted_message_has_codex_at_one_end() {
    let roles = [Role::VibeKanban, Role::Codex, Role::Git, Role::Build];
    let ops = [
        Operation::SubmitTask,
        Operation::StatusQuery,
        Operation::OperatorReview,
        Operation::Status,
        Operation::Result,
        Operation::Failure,
        Operation::Fetch,
        Operation::ScopedPush,
        Operation::SendBundle,
        Operation::Check,
        Operation::Test,
        Operation::Run,
        Operation::Reset,
    ];
    let mut count = 0;
    for s in roles {
        for d in roles {
            for op in ops {
                if allowed(s, d, op) {
                    count += 1;
                    assert!((s == Role::Codex) != (d == Role::Codex));
                }
            }
        }
    }
    assert_eq!(count, 19);
}

#[test]
fn every_channel_has_a_reverse_channel() {
    let pairs = [
        ("vibe-to-codex", Operation::SubmitTask, "codex-to-vibe", Operation::Result),
        ("codex-to-git", Operation::Fetch, "git-to-codex", Operation::Result),
        ("codex-to-build", Operation::Check, "build-to-codex", Operation::Failure),
    ];
    for (there, request, back, reply) in pairs {
        let forward = authorize_channel(there, request).unwrap();
        let reverse = authorize_channel(back, reply).unwrap();
        assert_eq!(forward, (reverse.1, reverse.0));
    }
}

#[test]
fn git_policy_reports_each_refusal() {
    let prefix = "ssh://git.example/";
    assert!(validate_git_request(&git_request(), prefix).is_ok());
    for repository in ["/abs", "a//b", "a/", "a/../b", "..", "", "a\u{7}b"] {
        let r = GitRequest { repository: repository.into(), ..git_request() };
        assert_eq!(validate_git_request(&r, prefix).unwrap_err(), "invalid repository path");
    }
    let r = GitRequest { repository: "r".repeat(257), ..git_request() };
    assert_eq!(validate_git_request(&r, prefix).unwrap_err(), "invalid repository path");
    let r = GitRequest { repository: "a/.../b".into(), ..git_request() };
    assert!(validate_git_request(&r, prefix).is_ok());
    for branch in ["-D", "", "main\n"] {
        let r = GitRequest { branch: branch.into(), ..git_request() };
        assert_eq!(validate_git_request(&r, prefix).unwrap_err(), "invalid branch");
    }
    let r = GitRequest { force: true, ..git_request() };
    assert_eq!(validate_git_request(&r, prefix).unwrap_err(), "force push denied");
    let r = GitRequest { remote: "ssh://git.example".into(), ..git_request() };
    assert_eq!(validate_git_request(&r, prefix).unwrap_err(), "remote denied");
    let r = GitRequest { force: true, branch: "-x".into(), ..git_request() };
    assert_eq!(validate_git_request(&r, prefix).unwrap_err(), "invalid branch");
}

#[test]
fn build_policy_reports_each_refusal() {
    for op in [Operation::Check, Operation::Test, Operation::Run, Operation::Reset] {
        assert!(validate_build_request(&build_request(op)).is_ok());
    }
    for op in [Operation::SendBundle, Operation::Status, Operation::Fetch] {
        assert_eq!(
            validate_build_request(&build_request(op)).unwrap_err(),
            "operation is not a Build operation"
        );
    }
    let r = BuildRequest { workspace: "w/../x".into(), ..build_request(Operation::Check) };
    assert_eq!(validate_build_request(&r).unwrap_err(), "invalid workspace");
    let r = BuildRequest { bundle_sha256: "g".repeat(64), ..build_request(Operation::Check) };
    assert_eq!(validate_build_request(&r).unwrap_err(), "invalid bundle digest");
    let r = BuildRequest { bundle_sha256: "a".repeat(63), ..build_request(Operation::Check) };
    assert_eq!(validate_build_request(&r).unwrap_err(), "invalid bundle digest");
    let r = BuildRequest { bundle_sha256: digest(b"bundle"), ..build_request(Operation::Check) };
    assert!(validate_build_request(&r).is_ok());
}

#[test]
fn replay_guard_accepts_each_nonce_once() {
    let mut g = ReplayGuard::default();
    assert!(g.accept("a"));
    assert!(g.accept("b"));
    assert!(!g.accept("a"));
    assert!(g.accept("c"));
    assert!(!g.accept("a"));
    assert!(!g.accept("b"));
}

#[test]
fn replies_keep_the_request_id_and_derive_the_nonce() {
    let request = framed("codex-to-build", b"{}");
    let reply = build_response(&request, Operation::Result, b"[1]".to_vec());
    assert_eq!(reply.channel, "build-to-codex");
    assert_eq!(reply.request_id, "r");
    assert_eq!(reply.nonce, "response-n");
    assert_eq!(reply.payload_sha256, digest(b"[1]"));
    assert!(encode(&reply).is_ok());
    assert!(authorize_channel(&reply.channel, reply.operation).is_ok());
    let reply = git_response(&request, Operation::Failure, b"{}".to_vec());
    assert_eq!(reply.channel, "git-to-codex");
    assert!(authorize_channel(&reply.channel, reply.operation).is_ok());
    let f = make_frame("vibe-to-codex", "task-1", Operation::SubmitTask, b"{}".to_vec());
    assert_eq!(f.nonce, "nonce-task-1");
    assert_eq!(f.request_id, "task-1");
    assert!(encode(&f).is_ok());
}

#[test]
fn build_plans_follow_the_policy() {
    assert_eq!(plan_build(Operation::Reset, &build_request(Operation::Reset)).unwrap(), BuildStep::Reset);
    assert_eq!(
        plan_build(Operation::Test, &build_request(Operation::Test)).unwrap(),
        BuildStep::Cargo(CargoCommand::Test)
    );
    assert_eq!(
        plan_build(Operation::Run, &build_request(Operation::Check)).unwrap_err(),
        "payload operation does not match channel frame"
    );
    assert_eq!(
        plan_build(Operation::Status, &build_request(Operation::Status)).unwrap_err(),
        "operation is not a Build operation"
    );
    assert_eq!(cargo_subcommand(CargoCommand::Check), "check");
    assert_eq!(cargo_subcommand(CargoCommand::Run), "run");
}

#[test]
fn git_commands_are_fixed_argument_lists() {
    let (args, label) = git_command(Operation::ScopedPush, &git_request(), "/srv/git/app").unwrap();
    assert_eq!(args, vec!["-C", "/srv/git/app", "push", "ssh://git.example/app.git", "main:main"]);
    assert_eq!(label, "scoped_push");
    let (args, label) = git_command(Operation::Fetch, &git_request(), "/p").unwrap();
    assert_eq!(args, vec!["-C", "/p", "fetch", "--no-tags", "ssh://git.example/app.git", "main"]);
    assert_eq!(label, "fetch");
    let (args, label) = git_command(Operation::Status, &git_request(), "/p").unwrap();
    assert_eq!(args, vec!["-C", "/p", "status", "--porcelain=v1"]);
    assert_eq!(label, "status");
    assert_eq!(
        git_command(Operation::Check, &git_request(), "/p").unwrap_err(),
        "unsupported Git operation"
    );
}

#[test]
fn outputs_are_capped_and_flagged() {
    let exact = vec![b'a'; MAX_OUTPUT];
    let (bytes, flagged) = build_output(&exact, b"");
    assert_eq!(bytes.len(), MAX_OUTPUT);
    assert!(flagged);
    let (bytes, flagged) = git_output(&exact, b"");
    assert_eq!(bytes.len(), MAX_OUTPUT);
    assert!(!flagged);
    let (bytes, flagged) = git_output(&exact, b"e");
    assert_eq!(bytes, exact);
    assert!(flagged);
    let (bytes, flagged) = build_output(b"out", b"err");
    assert_eq!(bytes, b"outerr".to_vec());
    assert!(!flagged);
    let (bytes, _) = git_output(&vec![b'o'; 10], &vec![b'e'; MAX_OUTPUT]);
    assert_eq!(bytes.len(), MAX_OUTPUT);
    assert_eq!(&bytes[..10], &vec![b'o'; 10][..]);
    assert_eq!(bytes[10], b'e');
}

#[test]
fn containment_matches_path_starts_with() {
    let cases = [
        ("/srv/build", "/srv/build/app"),
        ("/srv/build", "/srv/builder"),
        ("/srv/build", "/srv/build"),
        ("/srv/build/", "/srv/build//app/"),
        ("/", "/anything"),
        ("/a/b", "/a"),
        ("", "/a"),
        ("a", "/a"),
        ("a/./b", "a/b/c"),
        ("./a", "a"),
        (".", "./x"),
        ("/a/../b", "/a/b"),
        ("/a/..", "/a/../c"),
    ];
    for (root, path) in cases {
        assert_eq!(
            within_root(root.as_bytes(), path.as_bytes()),
            Path::new(path).starts_with(root),
            "{root} / {path}"
        );
    }
}

#[test]
fn command_options_are_checked() {
    let socket = || vec!["--socket".to_string(), "/s".to_string()];
    let mut a = socket();
    a.extend(["--port".to_string(), "+8080".to_string(), "status".to_string(), "t-1".to_string()]);
    let (s, port, op, payload) = command(&a).unwrap();
    assert_eq!((s.as_str(), port, op), ("/s", 8080, Operation::StatusQuery));
    assert_eq!(payload, b"{\"task_id\":\"t-1\"}".to_vec());
    assert_eq!("+8080".parse::<u32>().unwrap(), 8080);
    for (value, message) in [
        ("abc", "invalid port"),
        ("", "invalid port"),
        ("+", "invalid port"),
        ("-1", "invalid port"),
        ("4294967296", "invalid port"),
        ("1023", "port outside fixed range"),
        ("65536", "port outside fixed range"),
    ] {
        let mut a = socket();
        a.extend(["--port".to_string(), value.to_string(), "status".to_string(), "x".to_string()]);
        assert_eq!(command(&a).unwrap_err(), message);
    }
    let a = vec!["--port".to_string()];
    assert_eq!(command(&a).unwrap_err(), "missing port");
    let a = vec!["--verbose".to_string()];
    assert_eq!(command(&a).unwrap_err(), "unknown option");
    let a = vec!["status".to_string(), "x".to_string()];
    assert_eq!(command(&a).unwrap_err(), "--socket is required");
    let a = vec!["--socket".to_string(), "/s".to_string(), "--socket".to_string()];
    assert_eq!(command(&a).unwrap_err(), "--socket is required");
    let mut a = socket();
    a.push("status".to_string());
    assert_eq!(command(&a).unwrap_err(), "missing named command and argument");
    let mut a = socket();
    a.extend(["operator-review".to_string(), "why \"not\"".to_string()]);
    let (_, port, op, payload) = command(&a).unwrap();
    assert_eq!((port, op), (7000, Operation::OperatorReview));
    assert_eq!(payload, b"{\"reason\":\"why \\\"not\\\"\"}".to_vec());
    let exact = "x".repeat(MAX_PAYLOAD - b"{\"task\":\"\"}".len());
    let mut a = socket();
    a.extend(["submit-task".to_string(), exact]);
    assert_eq!(command(&a).unwrap().3.len(), MAX_PAYLOAD);
}

#[test]
fn stand_in_exchange_checks() {
    assert_eq!(connect_line(7000), b"CONNECT 7000\n".to_vec());
    assert_eq!(connect_line(0), b"CONNECT 0\n".to_vec());
    assert!(handshake_accepted(b"OK 1073741824\n"));
    assert!(!handshake_accepted(b"OK"));
    assert!(!handshake_accepted(b"NO 1\n"));
    let f = request_frame(4021, Operation::SubmitTask, b"{\"task\":\"t\"}".to_vec());
    assert_eq!(f.request_id, "vibe-cli-4021");
    assert_eq!(f.nonce, "vibe-nonce-4021");
    assert_eq!(f.channel, "vibe-to-codex");
    assert!(encode(&f).is_ok());
    assert!(accept_reply("codex-to-vibe", Operation::Result));
    assert!(accept_reply("codex-to-vibe", Operation::Failure));
    assert!(!accept_reply("codex-to-vibe", Operation::Status));
    assert!(!accept_reply("git-to-codex", Operation::Result));
    assert!(!accept_reply("build-to-codex", Operation::Failure));
}

#[test]
fn accepted_commands_are_authorized_from_vibe_to_codex() {
    for name in ["submit-task", "status", "operator-review"] {
        let a = vec!["--socket".to_string(), "/s".to_string(), name.to_string(), "v".to_string()];
        let (_, _, op, payload) = command(&a).unwrap();
        assert_eq!(authorize_channel("vibe-to-codex", op).unwrap(), (Role::VibeKanban, Role::Codex));
        assert!(payload.len() <= MAX_PAYLOAD);
    }
}

#[test]
fn forced_pushes_and_option_remotes_are_refused() {
    let prefix = "";
    let r = GitRequest { branch: "+main".into(), ..git_request() };
    assert_eq!(validate_git_request(&r, prefix).unwrap_err(), "invalid branch");
    let r = GitRequest { remote: "-f".into(), ..git_request() };
    assert_eq!(validate_git_request(&r, prefix).unwrap_err(), "remote denied");
    let r = GitRequest { remote: "--force".into(), ..git_request() };
    assert_eq!(validate_git_request(&r, prefix).unwrap_err(), "remote denied");
    assert!(validate_git_request(&git_request(), prefix).is_ok());
}

#[test]
fn payload_with_a_line_feed_is_refused() {
    let escaped = framed("codex-to-build", b"{\"a\":\"x\\ny\"}");
    assert!(encode(&escaped).is_ok());
    let raw = framed("codex-to-build", b"{\n}");
    assert_eq!(encode(&raw).unwrap_err(), "payload is not one line");
}

/// Drive the step over `stream` as the stand-in does; the line and the bytes taken.
fn drive(stream: &[u8]) -> (Option<Vec<u8>>, usize) {
    let mut line = Vec::new();
    let mut taken = 0;
    loop {
        let next = stream.get(taken).copied();
        if next.is_some() {
            taken += 1;
        }
        match bounded_line_step(&mut line, next) {
            LineStep::ReadMore => {}
            LineStep::Line => return (Some(line), taken),
            LineStep::Refused => return (None, taken),
        }
    }
}

#[test]
fn bounded_reads_stop_at_the_first_line_feed_or_the_limit() {
    assert_eq!(drive(b"ab\ncd\n"), (Some(b"ab\n".to_vec()), 3));
    assert_eq!(drive(b"abc"), (None, 3));
    assert_eq!(drive(b""), (None, 0));
    let mut long = vec![b'x'; MAX_RECORD];
    long.push(b'\n');
    assert_eq!(drive(&long), (Some(long.clone()), MAX_RECORD + 1));
    let mut longer = vec![b'x'; MAX_RECORD + 1];
    longer.push(b'\n');
    assert_eq!(drive(&longer), (None, MAX_RECORD + 1));
    let mut line = Vec::new();
    assert_eq!(bounded_line_step(&mut line, Some(b'a')), LineStep::ReadMore);
    assert_eq!(bounded_line_step(&mut line, None), LineStep::Refused);
    assert_eq!(line, b"a".to_vec());
}

#[test]
fn trailing_socket_option_leaves_no_socket() {
    let a = vec!["--socket".to_string(), "/s".to_string(), "status".to_string(), "x".to_string(), "--socket".to_string()];
    assert!(command(&a).is_err());
    let a = vec!["--socket".to_string()];
    assert_eq!(command(&a).unwrap_err(), "--socket is required");
}

#[test]
fn resolvers_refuse_unresolved_and_escaping_paths() {
    let root = Some(b"/srv/build".to_vec());
    assert_eq!(
        resolve_workspace(root.clone(), Some(b"/srv/build/app".to_vec())).unwrap(),
        b"/srv/build/app".to_vec()
    );
    assert_eq!(resolve_workspace(None, Some(b"/x".to_vec())).unwrap_err(), "build root unavailable");
    assert_eq!(resolve_workspace(root.clone(), None).unwrap_err(), "workspace unavailable");
    assert_eq!(
        resolve_workspace(root, Some(b"/srv/builder".to_vec())).unwrap_err(),
        "workspace escapes build root"
    );
    let root = Some(b"/srv/git".to_vec());
    assert!(resolve_repository(root.clone(), Some((b"/srv/git/app".to_vec(), true))).is_ok());
    assert_eq!(
        resolve_repository(root.clone(), Some((b"/srv/git/app".to_vec(), false))).unwrap_err(),
        "repository is outside Git root or is not a repository"
    );
    assert_eq!(resolve_repository(None, None).unwrap_err(), "Git root unavailable");
    assert_eq!(resolve_repository(root, None).unwrap_err(), "repository unavailable");
}

#[test]
fn executor_steps_refuse_before_anything_runs() {
    assert_eq!(admit_git_payload(None, "ssh://").unwrap_err(), "invalid Git payload");
    let forced = GitRequest { force: true, ..git_request() };
    assert_eq!(admit_git_payload(Some(forced), "ssh://").unwrap_err(), "force push denied");
    let admitted = admit_git_payload(Some(git_request()), "ssh://").unwrap();
    assert_eq!(admitted.repository, "repos/app");
    assert_eq!(
        git_after_location(Operation::Status, &admitted, Err("repository unavailable".into())).unwrap_err(),
        "repository unavailable"
    );
    let (args, label) = git_after_location(Operation::Status, &admitted, Ok("/srv/git/app".into())).unwrap();
    assert_eq!(args, vec!["-C", "/srv/git/app", "status", "--porcelain=v1"]);
    assert_eq!(label, "status");
    assert_eq!(admit_build_payload(Operation::Check, None).unwrap_err(), "invalid Build payload");
    assert_eq!(
        admit_build_payload(Operation::Check, Some(build_request(Operation::Check))).unwrap(),
        BuildStep::Cargo(CargoCommand::Check)
    );
    assert_eq!(
        admit_build_payload(Operation::Reset, Some(build_request(Operation::Reset))).unwrap(),
        BuildStep::Reset
    );
}

#[test]
fn stand_in_steps_follow_the_exchange_order() {
    let a = vec!["--socket".to_string(), "/s".to_string(), "status".to_string(), "t".to_string()];
    let (socket, connect, op, payload) = start(&a).unwrap();
    assert_eq!((socket.as_str(), op), ("/s", Operation::StatusQuery));
    assert_eq!(connect, b"CONNECT 7000\n".to_vec());
    assert_eq!(payload, b"{\"task_id\":\"t\"}".to_vec());
    assert_eq!(start(&a[..2]).unwrap_err(), "missing named command and argument");
    let frame = request_frame(7, op, payload);
    assert!(matches!(request_record(b"NO\n", &frame), Err(CliRefusal::HandshakeRejected)));
    assert_eq!(request_record(b"OK 1\n", &frame).unwrap(), encode(&frame).unwrap());
    let mut reply = framed("codex-to-vibe", b"{\"ok\":true}");
    reply.operation = Operation::Result;
    assert_eq!(reply_payload(Ok(reply.clone())).unwrap(), b"{\"ok\":true}".to_vec());
    reply.operation = Operation::Status;
    assert!(matches!(reply_payload(Ok(reply.clone())), Err(CliRefusal::DisallowedReply)));
    reply.channel = "git-to-codex".into();
    reply.operation = Operation::Result;
    assert!(matches!(reply_payload(Ok(reply)), Err(CliRefusal::DisallowedReply)));
    assert!(matches!(reply_payload(Err("malformed json".into())), Err(CliRefusal::Refused(m)) if m == "malformed json"));
}
