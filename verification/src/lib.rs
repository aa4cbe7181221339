//! Bounded guest-side protocol and authorization primitives.
//!
//! Four isolated roles (VibeKanban, Codex, Git, Build) exchange bounded JSON
//! Lines records over directional channels. This crate holds the verified
//! parts: the authorization matrix, the record encoding and its checks, the
//! Git and Build request policies, replay detection, and the decisions of the
//! role executors and of the VibeKanban stand-in.

pub mod cli;
pub mod digest;
pub mod executors;
pub mod frame;
pub mod greeting;
pub mod json;
pub mod line;
pub mod paths;
pub mod policy;
pub mod replay;
pub mod requests;
pub mod text;

pub use digest::digest;
pub use frame::{decode, encode, Frame, MAX_PAYLOAD, MAX_RECORD};
pub use greeting::greet;
pub use policy::{allowed, authorize_channel, Operation, Role};
pub use replay::ReplayGuard;
pub use requests::{validate_build_request, validate_git_request, BuildRequest, GitRequest};
