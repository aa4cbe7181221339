//! Roles, operations, and the authorization matrix between the roles.
use vstd::prelude::*;
use vstd::string::*;
use crate::text::str_eq;

verus! {

/// One of the four isolated roles.
#[derive(Clone, Copy, Debug, PartialEq, Eq, Hash, Structural)]
pub enum Role {
    VibeKanban,
    Codex,
    Git,
    Build,
}

/// A named protocol operation; nothing else can be requested.
#[derive(Clone, Copy, Debug, PartialEq, Eq, Hash, Structural)]
pub enum Operation {
    SubmitTask,
    StatusQuery,
    OperatorReview,
    Status,
    Result,
    Failure,
    Fetch,
    ScopedPush,
    SendBundle,
    Check,
    Test,
    Run,
    Reset,
}

/// The authorization matrix: which operations `source` may send to `destination`.
pub open spec fn permitted(source: Role, destination: Role, op: Operation) -> bool {
    match (source, destination) {
        (Role::VibeKanban, Role::Codex) => op == Operation::SubmitTask || op
            == Operation::StatusQuery || op == Operation::OperatorReview,
        (Role::Codex, Role::VibeKanban) => op == Operation::Status || op == Operation::Result || op
            == Operation::Failure,
        (Role::Codex, Role::Git) => op == Operation::Status || op == Operation::Fetch || op
            == Operation::ScopedPush,
        (Role::Git, Role::Codex) => op == Operation::Status || op == Operation::Result || op
            == Operation::Failure,
        (Role::Codex, Role::Build) => op == Operation::SendBundle || op == Operation::Check || op
            == Operation::Test || op == Operation::Run || op == Operation::Reset,
        (Role::Build, Role::Codex) => op == Operation::Result || op == Operation::Failure,
        _ => false,
    }
}

/// The endpoints that a directional channel name stands for.
pub open spec fn channel_endpoints(channel: Seq<char>) -> Option<(Role, Role)> {
    if channel == "vibe-to-codex"@ {
        Some((Role::VibeKanban, Role::Codex))
    } else if channel == "codex-to-vibe"@ {
        Some((Role::Codex, Role::VibeKanban))
    } else if channel == "codex-to-git"@ {
        Some((Role::Codex, Role::Git))
    } else if channel == "git-to-codex"@ {
        Some((Role::Git, Role::Codex))
    } else if channel == "codex-to-build"@ {
        Some((Role::Codex, Role::Build))
    } else if channel == "build-to-codex"@ {
        Some((Role::Build, Role::Codex))
    } else {
        None
    }
}

/// What `authorize_channel` answers for a channel name and an operation.
pub open spec fn authorization(channel: Seq<char>, op: Operation) -> Result<(Role, Role), Seq<char>> {
    match channel_endpoints(channel) {
        None => Err("unknown channel"@),
        Some((source, destination)) => if permitted(source, destination, op) {
            Ok((source, destination))
        } else {
            Err("operation denied on channel"@)
        },
    }
}

/// Whether `source` may send `op` to `destination`.
pub fn allowed(source: Role, destination: Role, op: Operation) -> (r: bool)
    ensures
        r == permitted(source, destination, op),
{
    match (source, destination, op) {
        (
            Role::VibeKanban,
            Role::Codex,
            Operation::SubmitTask | Operation::StatusQuery | Operation::OperatorReview,
        ) => true,
        (
            Role::Codex,
            Role::VibeKanban,
            Operation::Status | Operation::Result | Operation::Failure,
        ) => true,
        (Role::Codex, Role::Git, Operation::Status | Operation::Fetch | Operation::ScopedPush) => true,
        (Role::Git, Role::Codex, Operation::Status | Operation::Result | Operation::Failure) => true,
        (
            Role::Codex,
            Role::Build,
            Operation::SendBundle | Operation::Check | Operation::Test | Operation::Run
            | Operation::Reset,
        ) => true,
        (Role::Build, Role::Codex, Operation::Result | Operation::Failure) => true,
        _ => false,
    }
}

/// Enforce endpoint identity before an operation payload is handled: the roles
/// come from the channel, never from the payload.
pub fn authorize_channel(channel: &str, op: Operation) -> (r: Result<(Role, Role), String>)
    ensures
        match (r, authorization(channel@, op)) {
            (Ok(roles), Ok(expected)) => roles == expected,
            (Err(e), Err(expected)) => e@ == expected,
            _ => false,
        },
{
    let (source, destination) = if str_eq(channel, "vibe-to-codex") {
        (Role::VibeKanban, Role::Codex)
    } else if str_eq(channel, "codex-to-vibe") {
        (Role::Codex, Role::VibeKanban)
    } else if str_eq(channel, "codex-to-git") {
        (Role::Codex, Role::Git)
    } else if str_eq(channel, "git-to-codex") {
        (Role::Git, Role::Codex)
    } else if str_eq(channel, "codex-to-build") {
        (Role::Codex, Role::Build)
    } else if str_eq(channel, "build-to-codex") {
        (Role::Build, Role::Codex)
    } else {
        return Err(String::from_str("unknown channel"));
    };
    if allowed(source, destination, op) {
        Ok((source, destination))
    } else {
        Err(String::from_str("operation denied on channel"))
    }
}

/// Hub and spokes: every permitted message runs between Codex and one other
/// role, so VibeKanban, Git, and Build can never address one another (nor
/// themselves).
pub proof fn lemma_codex_is_the_hub(source: Role, destination: Role, op: Operation)
    ensures
        permitted(source, destination, op) ==> (source == Role::Codex) != (destination
            == Role::Codex),
{
}

/// The six channel names and the endpoints each stands for.
pub proof fn lemma_channel_names()
    ensures
        channel_endpoints("vibe-to-codex"@) == Some((Role::VibeKanban, Role::Codex)),
        channel_endpoints("codex-to-vibe"@) == Some((Role::Codex, Role::VibeKanban)),
        channel_endpoints("codex-to-git"@) == Some((Role::Codex, Role::Git)),
        channel_endpoints("git-to-codex"@) == Some((Role::Git, Role::Codex)),
        channel_endpoints("codex-to-build"@) == Some((Role::Codex, Role::Build)),
        channel_endpoints("build-to-codex"@) == Some((Role::Build, Role::Codex)),
{
    reveal_strlit("vibe-to-codex");
    reveal_strlit("codex-to-vibe");
    reveal_strlit("codex-to-git");
    reveal_strlit("git-to-codex");
    reveal_strlit("codex-to-build");
    reveal_strlit("build-to-codex");
    // The six names differ at their first byte or, among the `codex-to-*`
    // names, at the tenth.
    assert("codex-to-vibe"@[0] != "vibe-to-codex"@[0]);
    assert("codex-to-git"@[0] != "vibe-to-codex"@[0]);
    assert("codex-to-git"@[9] != "codex-to-vibe"@[9]);
    assert("git-to-codex"@[0] != "vibe-to-codex"@[0]);
    assert("git-to-codex"@[0] != "codex-to-vibe"@[0]);
    assert("git-to-codex"@[0] != "codex-to-git"@[0]);
    assert("codex-to-build"@[0] != "vibe-to-codex"@[0]);
    assert("codex-to-build"@[9] != "codex-to-vibe"@[9]);
    assert("codex-to-build"@[9] != "codex-to-git"@[9]);
    assert("codex-to-build"@[0] != "git-to-codex"@[0]);
    assert("build-to-codex"@[0] != "vibe-to-codex"@[0]);
    assert("build-to-codex"@[0] != "codex-to-vibe"@[0]);
    assert("build-to-codex"@[0] != "codex-to-git"@[0]);
    assert("build-to-codex"@[0] != "git-to-codex"@[0]);
    assert("build-to-codex"@[0] != "codex-to-build"@[0]);
}

/// Every directional channel has a channel in the opposite direction.
pub proof fn lemma_every_channel_has_a_reverse(channel: Seq<char>)
    ensures
        channel_endpoints(channel) matches Some((source, destination)) ==> exists|back: Seq<char>|
            #[trigger] channel_endpoints(back) == Some((destination, source)),
{
    lemma_channel_names();
}

/// The authorization table of the six directional channels: on each channel,
/// exactly the listed operations are authorized, and the roles are the
/// channel's two ends; any other operation is denied on that channel, and any
/// other channel name is unknown.
pub proof fn lemma_channel_authorization_table(channel: Seq<char>, op: Operation)
    ensures
        authorization("vibe-to-codex"@, op) == (if op == Operation::SubmitTask || op == Operation::StatusQuery || op == Operation::OperatorReview {
            Ok((Role::VibeKanban, Role::Codex))
        } else {
            Err("operation denied on channel"@)
        }),
        authorization("codex-to-vibe"@, op) == (if op == Operation::Status || op == Operation::Result || op == Operation::Failure {
            Ok((Role::Codex, Role::VibeKanban))
        } else {
            Err("operation denied on channel"@)
        }),
        authorization("codex-to-git"@, op) == (if op == Operation::Status || op == Operation::Fetch || op == Operation::ScopedPush {
            Ok((Role::Codex, Role::Git))
        } else {
            Err("operation denied on channel"@)
        }),
        authorization("git-to-codex"@, op) == (if op == Operation::Status || op == Operation::Result || op == Operation::Failure {
            Ok((Role::Git, Role::Codex))
        } else {
            Err("operation denied on channel"@)
        }),
        authorization("codex-to-build"@, op) == (if op == Operation::SendBundle || op == Operation::Check || op == Operation::Test || op == Operation::Run || op == Operation::Reset {
            Ok((Role::Codex, Role::Build))
        } else {
            Err("operation denied on channel"@)
        }),
        authorization("build-to-codex"@, op) == (if op == Operation::Result || op == Operation::Failure {
            Ok((Role::Build, Role::Codex))
        } else {
            Err("operation denied on channel"@)
        }),
        (channel != "vibe-to-codex"@ && channel != "codex-to-vibe"@ && channel != "codex-to-git"@ && channel != "git-to-codex"@ && channel != "codex-to-build"@ && channel != "build-to-codex"@) ==> authorization(channel, op) == Err::<(Role, Role), Seq<char>>(
            "unknown channel"@,
        ),
{
    lemma_channel_names();
}

} // verus!
