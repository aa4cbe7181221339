//! The decisions of the Git and Build executors and of the endpoints that
//! exchange frames: which command a request stands for, which reply frame
//! answers it, and how much command output is returned.
use vstd::prelude::*;
use vstd::string::*;
use crate::digest::{digest, digest_spec};
use crate::frame::Frame;
use crate::policy::{authorization, lemma_channel_names, Operation, Role};
use crate::requests::{validate_git_request, BuildRequest, GitRequest};
use crate::text::lemma_first_ascii_byte;
use vstd::utf8::encode_utf8;

verus! {

/// The largest command output returned in a result, in bytes.
pub const MAX_OUTPUT: usize = 8 * 1024;

/// A frame on `channel` for `operation`, with the given request id and nonce,
/// carrying `payload` and its digest.
pub open spec fn frame_with(
    channel: Seq<char>,
    request_id: Seq<char>,
    operation: Operation,
    nonce: Seq<char>,
    payload: Seq<u8>,
    f: Frame,
) -> bool {
    &&& f.version == 1
    &&& f.channel@ == channel
    &&& f.request_id@ == request_id
    &&& f.operation == operation
    &&& f.nonce@ == nonce
    &&& f.payload_sha256@ == digest_spec(payload)
    &&& f.payload@ == payload
}

/// A version-1 frame with its digest computed from its payload.
fn new_frame(channel: String, request_id: String, operation: Operation, nonce: String, payload: Vec<u8>) -> (r: Frame)
    ensures
        frame_with(channel@, request_id@, operation, nonce@, payload@, r),
{
    let payload_sha256 = digest(payload.as_slice());
    Frame { version: 1, channel, request_id, operation, nonce, payload_sha256, payload }
}

/// `prefix` followed by `text`.
fn prefixed(prefix: &str, text: &str) -> (r: String)
    ensures
        r@ == prefix@ + text@,
{
    let mut s = String::from_str(prefix);
    s.append(text);
    s
}

/// The reply to `request` on `channel`: same request id, nonce `response-`
/// followed by the request's nonce.
fn reply(request: &Frame, channel: &str, operation: Operation, payload: Vec<u8>) -> (r: Frame)
    ensures
        frame_with(
            channel@,
            request.request_id@,
            operation,
            "response-"@ + request.nonce@,
            payload@,
            r,
        ),
{
    new_frame(
        String::from_str(channel),
        request.request_id.clone(),
        operation,
        prefixed("response-", request.nonce.as_str()),
        payload,
    )
}

/// The Build role's reply to `request`, on the Build-to-Codex channel.
pub fn build_response(request: &Frame, operation: Operation, payload: Vec<u8>) -> (r: Frame)
    ensures
        frame_with(
            "build-to-codex"@,
            request.request_id@,
            operation,
            "response-"@ + request.nonce@,
            payload@,
            r,
        ),
{
    reply(request, "build-to-codex", operation, payload)
}

/// The Git role's reply to `request`, on the Git-to-Codex channel.
pub fn git_response(request: &Frame, operation: Operation, payload: Vec<u8>) -> (r: Frame)
    ensures
        frame_with(
            "git-to-codex"@,
            request.request_id@,
            operation,
            "response-"@ + request.nonce@,
            payload@,
            r,
        ),
{
    reply(request, "git-to-codex", operation, payload)
}

/// A frame on `channel` with request id `id` and nonce `nonce-` followed by `id`.
pub fn make_frame(channel: &str, id: &str, op: Operation, payload: Vec<u8>) -> (r: Frame)
    ensures
        frame_with(channel@, id@, op, "nonce-"@ + id@, payload@, r),
{
    new_frame(String::from_str(channel), String::from_str(id), op, prefixed("nonce-", id), payload)
}

/// What the Build role does for an admitted request.
#[derive(Clone, Copy, Debug, PartialEq, Eq, Structural)]
pub enum BuildStep {
    /// Reset the workspace; nothing is run.
    Reset,
    /// Run `cargo <subcommand> --offline` in the workspace.
    Cargo(CargoCommand),
}

/// The Cargo subcommands the Build role runs.
#[derive(Clone, Copy, Debug, PartialEq, Eq, Structural)]
pub enum CargoCommand {
    Check,
    Test,
    Run,
}

/// The step that a Build request stands for, or why it is refused.
pub open spec fn build_step_spec(frame_operation: Operation, request: BuildRequest) -> Result<
    BuildStep,
    Seq<char>,
> {
    match request.rejection() {
        Some(reason) => Err(reason),
        None => if request.operation != frame_operation {
            Err("payload operation does not match channel frame"@)
        } else {
            match request.operation {
                Operation::Reset => Ok(BuildStep::Reset),
                Operation::Check => Ok(BuildStep::Cargo(CargoCommand::Check)),
                Operation::Test => Ok(BuildStep::Cargo(CargoCommand::Test)),
                Operation::Run => Ok(BuildStep::Cargo(CargoCommand::Run)),
                _ => Err("unsupported Build operation"@),
            }
        },
    }
}

/// The step a Build request stands for: it must pass the Build policy and name
/// the same operation as the frame that carried it.
pub fn plan_build(frame_operation: Operation, request: &BuildRequest) -> (r: Result<BuildStep, String>)
    ensures
        match (r, build_step_spec(frame_operation, *request)) {
            (Ok(step), Ok(expected)) => step == expected,
            (Err(e), Err(expected)) => e@ == expected,
            _ => false,
        },
{
    crate::requests::validate_build_request(request)?;
    if request.operation != frame_operation {
        return Err(String::from_str("payload operation does not match channel frame"));
    }
    match request.operation {
        Operation::Reset => Ok(BuildStep::Reset),
        Operation::Check => Ok(BuildStep::Cargo(CargoCommand::Check)),
        Operation::Test => Ok(BuildStep::Cargo(CargoCommand::Test)),
        Operation::Run => Ok(BuildStep::Cargo(CargoCommand::Run)),
        _ => Err(String::from_str("unsupported Build operation")),
    }
}

/// The name of a Cargo subcommand.
pub open spec fn cargo_subcommand_name(c: CargoCommand) -> Seq<char> {
    match c {
        CargoCommand::Check => "check"@,
        CargoCommand::Test => "test"@,
        CargoCommand::Run => "run"@,
    }
}

/// The name of a Cargo subcommand.
pub fn cargo_subcommand(c: CargoCommand) -> (r: &'static str)
    ensures
        r@ == cargo_subcommand_name(c),
{
    match c {
        CargoCommand::Check => "check",
        CargoCommand::Test => "test",
        CargoCommand::Run => "run",
    }
}

/// The arguments and label of the Git command an operation stands for.
pub open spec fn git_command_spec(op: Operation, request: GitRequest, path: Seq<char>) -> Result<
    (Seq<Seq<char>>, Seq<char>),
    Seq<char>,
> {
    match op {
        Operation::Status => Ok(
            (seq!["-C"@, path, "status"@, "--porcelain=v1"@], "status"@),
        ),
        Operation::Fetch => Ok(
            (
                seq!["-C"@, path, "fetch"@, "--no-tags"@, request.remote@, request.branch@],
                "fetch"@,
            ),
        ),
        Operation::ScopedPush => Ok(
            (
                seq![
                    "-C"@,
                    path,
                    "push"@,
                    request.remote@,
                    request.branch@ + ":"@ + request.branch@,
                ],
                "scoped_push"@,
            ),
        ),
        _ => Err("unsupported Git operation"@),
    }
}

/// The views of a list of strings.
pub open spec fn string_views(v: Seq<String>) -> Seq<Seq<char>> {
    v.map_values(|s: String| s@)
}

/// The fixed Git command line for an operation on the repository at `path`:
/// never a shell command, and a push always goes to the branch of the same name.
pub fn git_command(op: Operation, request: &GitRequest, path: &str) -> (r: Result<
    (Vec<String>, &'static str),
    String,
>)
    ensures
        match (r, git_command_spec(op, *request, path@)) {
            (Ok((args, label)), Ok((expected_args, expected_label))) => string_views(args@)
                == expected_args && label@ == expected_label,
            (Err(e), Err(expected)) => e@ == expected,
            _ => false,
        },
{
    let mut args: Vec<String> = Vec::new();
    args.push(String::from_str("-C"));
    args.push(String::from_str(path));
    let label = match op {
        Operation::Status => {
            args.push(String::from_str("status"));
            args.push(String::from_str("--porcelain=v1"));
            "status"
        },
        Operation::Fetch => {
            args.push(String::from_str("fetch"));
            args.push(String::from_str("--no-tags"));
            args.push(request.remote.clone());
            args.push(request.branch.clone());
            "fetch"
        },
        Operation::ScopedPush => {
            args.push(String::from_str("push"));
            args.push(request.remote.clone());
            let mut refspec = request.branch.clone();
            refspec.append(":");
            refspec.append(request.branch.as_str());
            args.push(refspec);
            "scoped_push"
        },
        _ => {
            return Err(String::from_str("unsupported Git operation"));
        },
    };
    let ghost expected = git_command_spec(op, *request, path@);
    assert(string_views(args@) =~= expected->Ok_0.0);
    Ok((args, label))
}

/// The combined output of a command, cut to at most `MAX_OUTPUT` bytes.
pub open spec fn capped(stdout: Seq<u8>, stderr: Seq<u8>) -> Seq<u8> {
    let all = stdout + stderr;
    if all.len() > MAX_OUTPUT {
        all.take(MAX_OUTPUT as int)
    } else {
        all
    }
}

/// Standard output followed by standard error, cut to at most `MAX_OUTPUT` bytes.
fn cap_output(stdout: &[u8], stderr: &[u8]) -> (r: Vec<u8>)
    ensures
        r@ == capped(stdout@, stderr@),
{
    let mut out: Vec<u8> = Vec::new();
    let mut i: usize = 0;
    while i < stdout.len() && out.len() < MAX_OUTPUT
        invariant
            i <= stdout.len(),
            out@ == stdout@.take(i as int),
            out.len() == i,
            out.len() <= MAX_OUTPUT,
        decreases stdout.len() - i,
    {
        out.push(stdout[i]);
        assert(stdout@.take(i + 1) =~= stdout@.take(i as int).push(stdout@[i as int]));
        i = i + 1;
    }
    assert((stdout@ + stderr@).take(i as int) =~= stdout@.take(i as int));
    let mut j: usize = 0;
    while j < stderr.len() && out.len() < MAX_OUTPUT
        invariant
            i <= stdout.len(),
            j <= stderr.len(),
            out.len() == i + j,
            out.len() <= MAX_OUTPUT,
            i < stdout.len() ==> out.len() == MAX_OUTPUT && j == 0,
            out@ == (stdout@ + stderr@).take(out.len() as int),
        decreases stderr.len() - j,
    {
        out.push(stderr[j]);
        assert((stdout@ + stderr@).take(out.len() as int) =~= (stdout@ + stderr@).take(
            (out.len() - 1) as int,
        ).push((stdout@ + stderr@)[out.len() - 1]));
        j = j + 1;
    }
    assert(out@ =~= capped(stdout@, stderr@));
    out
}

/// The Build role's output: capped, and flagged as truncated once it reaches
/// `MAX_OUTPUT` bytes.
pub fn build_output(stdout: &[u8], stderr: &[u8]) -> (r: (Vec<u8>, bool))
    ensures
        r.0@ == capped(stdout@, stderr@),
        r.1 == (stdout@.len() + stderr@.len() >= MAX_OUTPUT),
{
    let out = cap_output(stdout, stderr);
    let truncated = out.len() == MAX_OUTPUT;
    (out, truncated)
}

/// The Git role's output: capped, and flagged as truncated when bytes were cut.
pub fn git_output(stdout: &[u8], stderr: &[u8]) -> (r: (Vec<u8>, bool))
    ensures
        r.0@ == capped(stdout@, stderr@),
        r.1 == (stdout@.len() + stderr@.len() > MAX_OUTPUT),
{
    let out = cap_output(stdout, stderr);
    let truncated = stdout.len() > MAX_OUTPUT || stderr.len() > MAX_OUTPUT - stdout.len();
    (out, truncated)
}

/// The executors answer on their own return channels, and a result or a
/// failure is always authorized there: Build and Git can always report back
/// to Codex.
pub proof fn lemma_executor_replies_are_authorized(op: Operation)
    requires
        op == Operation::Result || op == Operation::Failure,
    ensures
        authorization("build-to-codex"@, op) == Ok::<(Role, Role), Seq<char>>((Role::Build, Role::Codex)),
        authorization("git-to-codex"@, op) == Ok::<(Role, Role), Seq<char>>((Role::Git, Role::Codex)),
{
    lemma_channel_names();
}

/// A push for an admitted request is never forced: its remote is not an
/// option, and its refspec `branch:branch` starts with neither `+` (which
/// forces the update) nor `-`.
pub proof fn lemma_admitted_push_is_not_forced(request: GitRequest, prefix: Seq<u8>, path: Seq<char>)
    requires
        request.rejection(prefix) is None,
    ensures
        git_command_spec(Operation::ScopedPush, request, path) matches Ok((args, _)) ==> {
            &&& args.len() == 5
            &&& args[2] == "push"@
            &&& args[3] == request.remote@
            &&& args[3].len() > 0 && args[3][0] != '-'
            &&& args[4].len() > 0 && args[4][0] != '+' && args[4][0] != '-'
        },
{
    let branch = request.branch@;
    let remote = request.remote@;
    if branch.len() == 0 {
        assert(encode_utf8(branch) =~= Seq::<u8>::empty());
    } else if (branch[0] as u32) < 0x80 {
        lemma_first_ascii_byte(branch);
    }
    if remote.len() == 0 {
        assert(encode_utf8(remote) =~= Seq::<u8>::empty());
    } else if (remote[0] as u32) < 0x80 {
        lemma_first_ascii_byte(remote);
    }
    let refspec = branch + ":"@ + branch;
    assert(refspec[0] == branch[0]);
}

/// The Git executor's step after reading a record's payload as a Git request
/// (`None` when it is not one): the admitted request, whose repository is then
/// located, or why the record is refused.
pub open spec fn git_payload_step(request: Option<GitRequest>, prefix: Seq<u8>) -> Result<
    GitRequest,
    Seq<char>,
> {
    match request {
        None => Err("invalid Git payload"@),
        Some(r) => match r.rejection(prefix) {
            Some(reason) => Err(reason),
            None => Ok(r),
        },
    }
}

/// Admit the payload of a record to the Git role: it must read as a Git
/// request that passes the Git policy. Nothing is located or run otherwise.
pub fn admit_git_payload(request: Option<GitRequest>, prefix: &str) -> (r: Result<GitRequest, String>)
    ensures
        match (r, git_payload_step(request, encode_utf8(prefix@))) {
            (Ok(admitted), Ok(expected)) => admitted == expected,
            (Err(e), Err(expected)) => e@ == expected,
            _ => false,
        },
{
    match request {
        None => Err(String::from_str("invalid Git payload")),
        Some(r) => {
            validate_git_request(&r, prefix)?;
            Ok(r)
        },
    }
}

/// The Git executor's step once the repository of an admitted request has been
/// located (or not): the command to run, or why the record is refused.
pub open spec fn git_location_step(op: Operation, request: GitRequest, located: Result<Seq<char>, Seq<char>>) -> Result<
    (Seq<Seq<char>>, Seq<char>),
    Seq<char>,
> {
    match located {
        Err(e) => Err(e),
        Ok(path) => git_command_spec(op, request, path),
    }
}

/// The command for an admitted request, once its repository is located: none
/// when it could not be located.
pub fn git_after_location(op: Operation, request: &GitRequest, located: Result<String, String>) -> (r: Result<
    (Vec<String>, &'static str),
    String,
>)
    ensures
        match (r, git_location_step(
            op,
            *request,
            match located { Ok(p) => Ok(p@), Err(e) => Err(e@) },
        )) {
            (Ok((args, label)), Ok((expected_args, expected_label))) => string_views(args@)
                == expected_args && label@ == expected_label,
            (Err(e), Err(expected)) => e@ == expected,
            _ => false,
        },
{
    match located {
        Err(e) => Err(e),
        Ok(path) => git_command(op, request, path.as_str()),
    }
}

/// The Git executor's decision for one decoded record: its channel must
/// authorize its operation before the payload is read; then, from what the
/// outside steps gave, the payload read as a request and the location of its
/// repository (asked for only when the request was admitted).
pub open spec fn git_decision(
    channel: Seq<char>,
    op: Operation,
    request: Option<GitRequest>,
    prefix: Seq<u8>,
    located: Result<Seq<char>, Seq<char>>,
) -> Result<(Seq<Seq<char>>, Seq<char>), Seq<char>> {
    match authorization(channel, op) {
        Err(e) => Err(e),
        Ok(_) => match git_payload_step(request, prefix) {
            Err(e) => Err(e),
            Ok(admitted) => git_location_step(op, admitted, located),
        },
    }
}

/// Git runs only for a record whose channel authorizes its operation, carrying
/// a request that passed the Git policy and whose repository was located; and
/// then it runs exactly the fixed command for the operation.
pub proof fn lemma_git_runs_only_admitted_requests(
    channel: Seq<char>,
    op: Operation,
    request: Option<GitRequest>,
    prefix: Seq<u8>,
    located: Result<Seq<char>, Seq<char>>,
)
    ensures
        git_decision(channel, op, request, prefix, located) matches Ok(command) ==> {
            &&& authorization(channel, op) is Ok
            &&& request matches Some(r)
            &&& r.rejection(prefix) is None
            &&& located matches Ok(path)
            &&& git_command_spec(op, r, path) == Ok::<(Seq<Seq<char>>, Seq<char>), Seq<char>>(command)
        },
{
}

/// The Build executor's step after reading a record's payload as a Build
/// request (`None` when it is not one): the step it stands for, or why the
/// record is refused.
pub open spec fn build_payload_step(frame_operation: Operation, request: Option<BuildRequest>) -> Result<
    BuildStep,
    Seq<char>,
> {
    match request {
        None => Err("invalid Build payload"@),
        Some(r) => build_step_spec(frame_operation, r),
    }
}

/// Admit the payload of a record to the Build role: it must read as a Build
/// request that passes the Build policy and names the frame's operation.
/// Nothing is located or run otherwise.
pub fn admit_build_payload(frame_operation: Operation, request: Option<BuildRequest>) -> (r: Result<
    BuildStep,
    String,
>)
    ensures
        match (r, build_payload_step(frame_operation, request)) {
            (Ok(step), Ok(expected)) => step == expected,
            (Err(e), Err(expected)) => e@ == expected,
            _ => false,
        },
{
    match request {
        None => Err(String::from_str("invalid Build payload")),
        Some(r) => plan_build(frame_operation, &r),
    }
}

/// The Build executor's decision for one decoded record: its channel must
/// authorize its operation before the payload is read; then, from what the
/// outside steps gave, the payload read as a request and the location of its
/// workspace (asked for only for a Cargo step): the subcommand to run in the
/// located workspace, `None` for a reset, or why the record is refused.
pub open spec fn build_decision(
    channel: Seq<char>,
    frame_operation: Operation,
    request: Option<BuildRequest>,
    located: Result<Seq<u8>, Seq<char>>,
) -> Result<Option<(CargoCommand, Seq<u8>)>, Seq<char>> {
    match authorization(channel, frame_operation) {
        Err(e) => Err(e),
        Ok(_) => match build_payload_step(frame_operation, request) {
            Err(e) => Err(e),
            Ok(BuildStep::Reset) => Ok(None),
            Ok(BuildStep::Cargo(command)) => match located {
                Err(e) => Err(e),
                Ok(cwd) => Ok(Some((command, cwd))),
            },
        },
    }
}

/// Cargo runs only for a record whose channel authorizes its operation,
/// carrying a request that passed the Build policy, names the frame's
/// operation and is not a reset; and only in its located workspace.
pub proof fn lemma_cargo_runs_only_admitted_requests(
    channel: Seq<char>,
    frame_operation: Operation,
    request: Option<BuildRequest>,
    located: Result<Seq<u8>, Seq<char>>,
)
    ensures
        build_decision(channel, frame_operation, request, located) matches Ok(Some((command, cwd)))
            ==> {
            &&& authorization(channel, frame_operation) is Ok
            &&& request matches Some(r)
            &&& r.rejection() is None
            &&& r.operation == frame_operation
            &&& r.operation != Operation::Reset
            &&& located == Ok::<Seq<u8>, Seq<char>>(cwd)
        },
{
}

} // verus!
