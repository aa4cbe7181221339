//! Typed Git and Build requests and the policies that admit them.
use vstd::prelude::*;
use vstd::string::*;
use crate::policy::{permitted, Operation, Role};
use vstd::utf8::encode_utf8;
use crate::text::{
    all_hex_digits, bytes_start_with, control_free, has_bad_part, has_bad_part_exec, has_prefix,
    is_segment,
    is_control_free, is_hex_digit,
};

verus! {

/// A request to the Git role.
#[derive(Clone, Debug)]
pub struct GitRequest {
    pub repository: String,
    pub remote: String,
    pub branch: String,
    pub force: bool,
}

/// A request to the Build role.
#[derive(Clone, Debug)]
pub struct BuildRequest {
    pub workspace: String,
    pub operation: Operation,
    pub bundle_sha256: String,
}

/// A bounded, non-empty text value free of control bytes.
pub open spec fn safe_component_spec(value: Seq<u8>, max: nat) -> bool {
    value.len() > 0 && value.len() <= max && control_free(value)
}

/// `s` is non-empty and its first byte is `b`.
pub open spec fn starts_with_byte(s: Seq<u8>, b: u8) -> bool {
    s.len() > 0 && s[0] == b
}

/// A path that is relative and in which no part is empty or `..`.
pub open spec fn confined_path(s: Seq<u8>) -> bool {
    !starts_with_byte(s, 0x2f) && !has_bad_part(s)
}

/// The reason a Git request is refused under a remote prefix, if it is.
pub open spec fn git_rejection(
    repository: Seq<u8>,
    remote: Seq<u8>,
    branch: Seq<u8>,
    force: bool,
    prefix: Seq<u8>,
) -> Option<Seq<char>> {
    if !safe_component_spec(repository, 256) || !confined_path(repository) {
        Some("invalid repository path"@)
    } else if !safe_component_spec(branch, 128) || starts_with_byte(branch, 0x2d)
        || starts_with_byte(branch, 0x2b) {
        Some("invalid branch"@)
    } else if force {
        Some("force push denied"@)
    } else if !safe_component_spec(remote, 1024) || starts_with_byte(remote, 0x2d) || !has_prefix(
        remote,
        prefix,
    ) {
        Some("remote denied"@)
    } else {
        None
    }
}

/// The operations the Build role executes.
pub open spec fn is_build_operation(op: Operation) -> bool {
    op == Operation::Check || op == Operation::Test || op == Operation::Run || op
        == Operation::Reset
}

/// A digest in the form the Build role accepts: 64 hexadecimal digits.
pub open spec fn is_bundle_digest(d: Seq<u8>) -> bool {
    d.len() == 64 && forall|i: int| 0 <= i < d.len() ==> is_hex_digit(#[trigger] d[i])
}

/// The reason a Build request is refused, if it is.
pub open spec fn build_rejection(workspace: Seq<u8>, op: Operation, bundle_sha256: Seq<u8>) -> Option<
    Seq<char>,
> {
    if !is_build_operation(op) {
        Some("operation is not a Build operation"@)
    } else if !safe_component_spec(workspace, 256) || !confined_path(workspace) {
        Some("invalid workspace"@)
    } else if !is_bundle_digest(bundle_sha256) {
        Some("invalid bundle digest"@)
    } else {
        None
    }
}

impl GitRequest {
    /// The reason this request is refused under `prefix`, if it is.
    pub open spec fn rejection(&self, prefix: Seq<u8>) -> Option<Seq<char>> {
        git_rejection(
            encode_utf8(self.repository@),
            encode_utf8(self.remote@),
            encode_utf8(self.branch@),
            self.force,
            prefix,
        )
    }
}

impl BuildRequest {
    /// The reason this request is refused, if it is.
    pub open spec fn rejection(&self) -> Option<Seq<char>> {
        build_rejection(
            encode_utf8(self.workspace@),
            self.operation,
            encode_utf8(self.bundle_sha256@),
        )
    }
}

/// Whether `value` is non-empty, at most `max` bytes long, and free of control bytes.
fn safe_component(value: &str, max: usize) -> (r: bool)
    ensures
        r == safe_component_spec(encode_utf8(value@), max as nat),
{
    let bytes = value.as_bytes();
    bytes.len() != 0 && bytes.len() <= max && is_control_free(bytes)
}

/// Whether `value` is a relative path without empty or `..` parts.
fn confined(value: &str) -> (r: bool)
    ensures
        r == confined_path(encode_utf8(value@)),
{
    let bytes = value.as_bytes();
    !(bytes.len() > 0 && bytes[0] == 0x2f) && !has_bad_part_exec(bytes)
}

/// Validate Git policy before invoking a Git helper. The helper receives only
/// this validated structure; it never receives a shell command.
pub fn validate_git_request(request: &GitRequest, allowed_remote_prefix: &str) -> (r: Result<
    (),
    String,
>)
    ensures
        match r {
            Ok(()) => request.rejection(encode_utf8(allowed_remote_prefix@)) is None,
            Err(e) => request.rejection(encode_utf8(allowed_remote_prefix@)) == Some(e@),
        },
{
    if !safe_component(request.repository.as_str(), 256) || !confined(request.repository.as_str()) {
        return Err(String::from_str("invalid repository path"));
    }
    let branch = request.branch.as_str().as_bytes();
    if !safe_component(request.branch.as_str(), 128) || (branch.len() > 0 && (branch[0] == 0x2d
        || branch[0] == 0x2b)) {
        return Err(String::from_str("invalid branch"));
    }
    if request.force {
        return Err(String::from_str("force push denied"));
    }
    let remote = request.remote.as_str().as_bytes();
    if !safe_component(request.remote.as_str(), 1024) || (remote.len() > 0 && remote[0] == 0x2d)
        || !bytes_start_with(
        request.remote.as_str().as_bytes(),
        allowed_remote_prefix.as_bytes(),
    ) {
        return Err(String::from_str("remote denied"));
    }
    Ok(())
}

/// Validate Build requests without interpreting user text as a command.
pub fn validate_build_request(request: &BuildRequest) -> (r: Result<(), String>)
    ensures
        match r {
            Ok(()) => request.rejection() is None,
            Err(e) => request.rejection() == Some(e@),
        },
{
    match request.operation {
        Operation::Check | Operation::Test | Operation::Run | Operation::Reset => {},
        _ => {
            return Err(String::from_str("operation is not a Build operation"));
        },
    }
    if !safe_component(request.workspace.as_str(), 256) || !confined(request.workspace.as_str()) {
        return Err(String::from_str("invalid workspace"));
    }
    let digest = request.bundle_sha256.as_str().as_bytes();
    if digest.len() != 64 || !all_hex_digits(digest) {
        return Err(String::from_str("invalid bundle digest"));
    }
    Ok(())
}

/// An admitted Git request never forces: its force flag is off and its branch
/// starts with neither `-` (an option) nor `+` (a forced refspec). It stays
/// under the allowed remote prefix, its remote is not an option, and it names a relative repository path that
/// cannot climb out with `..`.
pub proof fn lemma_admitted_git_request_is_scoped(request: GitRequest, prefix: Seq<u8>)
    requires
        request.rejection(prefix) is None,
    ensures
        !request.force,
        has_prefix(encode_utf8(request.remote@), prefix),
        !starts_with_byte(encode_utf8(request.remote@), 0x2d),
        confined_path(encode_utf8(request.repository@)),
        control_free(encode_utf8(request.repository@)),
        !starts_with_byte(encode_utf8(request.branch@), 0x2d),
        !starts_with_byte(encode_utf8(request.branch@), 0x2b),
{
}

/// An admitted Build request carries an operation that Codex may send to Build,
/// and a relative workspace path that cannot climb out with `..`.
pub proof fn lemma_admitted_build_request_is_authorized(request: BuildRequest)
    requires
        request.rejection() is None,
    ensures
        permitted(Role::Codex, Role::Build, request.operation),
        confined_path(encode_utf8(request.workspace@)),
        is_bundle_digest(encode_utf8(request.bundle_sha256@)),
{
}

/// The Build policy admits exactly the requests whose operation is `check`,
/// `test`, `run` or `reset`, whose workspace is a relative path of 1 to 256
/// bytes with no control byte and no empty or `..` part, and whose bundle
/// digest is 64 ASCII hexadecimal digits, in either case.
pub proof fn lemma_build_policy_admits_exactly(request: BuildRequest)
    ensures
        request.rejection() is None <==> {
            let ws = encode_utf8(request.workspace@);
            let d = encode_utf8(request.bundle_sha256@);
            &&& (request.operation == Operation::Check || request.operation == Operation::Test
                || request.operation == Operation::Run || request.operation == Operation::Reset)
            &&& 1 <= ws.len() <= 256
            &&& forall|i: int| 0 <= i < ws.len() ==> #[trigger] ws[i] >= 0x20 && ws[i] != 0x7f
            &&& ws[0] != 0x2f
            &&& forall|i: int, j: int| #[trigger]
                is_segment(ws, i, j) ==> j != i && !(j == i + 2 && ws[i] == 0x2e && ws[i + 1]
                    == 0x2e)
            &&& d.len() == 64
            &&& forall|i: int|
                0 <= i < d.len() ==> (0x30 <= #[trigger] d[i] <= 0x39) || (0x41 <= d[i] <= 0x46) || (
                0x61 <= d[i] <= 0x66)
        },
{
}

/// The Git policy admits exactly the requests whose repository is a relative
/// path of 1 to 256 bytes with no control byte and no empty or `..` part,
/// whose branch has 1 to 128 bytes, no control byte, and starts with neither
/// `-` nor `+`, whose force flag is off, and whose remote has 1 to 1024 bytes,
/// no control byte, does not start with `-`, and starts with the prefix.
/// Anything else in a branch, such as `/`, is allowed.
pub proof fn lemma_git_policy_admits_exactly(request: GitRequest, prefix: Seq<u8>)
    ensures
        request.rejection(prefix) is None <==> {
            let repo = encode_utf8(request.repository@);
            let branch = encode_utf8(request.branch@);
            let remote = encode_utf8(request.remote@);
            &&& 1 <= repo.len() <= 256
            &&& forall|i: int| 0 <= i < repo.len() ==> #[trigger] repo[i] >= 0x20 && repo[i] != 0x7f
            &&& repo[0] != 0x2f
            &&& forall|i: int, j: int| #[trigger]
                is_segment(repo, i, j) ==> j != i && !(j == i + 2 && repo[i] == 0x2e && repo[i + 1]
                    == 0x2e)
            &&& 1 <= branch.len() <= 128
            &&& forall|i: int| 0 <= i < branch.len() ==> #[trigger] branch[i] >= 0x20 && branch[i] != 0x7f
            &&& branch[0] != 0x2d && branch[0] != 0x2b
            &&& !request.force
            &&& 1 <= remote.len() <= 1024
            &&& forall|i: int| 0 <= i < remote.len() ==> #[trigger] remote[i] >= 0x20 && remote[i] != 0x7f
            &&& remote[0] != 0x2d
            &&& prefix.len() <= remote.len()
            &&& forall|i: int| 0 <= i < prefix.len() ==> #[trigger] remote[i] == prefix[i]
        },
{
    let remote = encode_utf8(request.remote@);
    if prefix.len() <= remote.len() {
        if forall|i: int| 0 <= i < prefix.len() ==> #[trigger] remote[i] == prefix[i] {
            assert(remote.subrange(0, prefix.len() as int) =~= prefix);
        }
        if has_prefix(remote, prefix) {
            assert forall|i: int| 0 <= i < prefix.len() implies #[trigger] remote[i] == prefix[i] by {
                assert(remote.subrange(0, prefix.len() as int)[i] == remote[i]);
            }
        }
    }
}

} // verus!
