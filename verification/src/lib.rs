//! Verified core of a terminal-observation server: key parsing, input-routing
//! state, federation bookkeeping and validation, and the request-level
//! decisions of the HTTP/WebSocket API.

pub mod text;
pub mod json;
pub mod input;
pub mod federation;
pub mod config;
pub mod api;
pub mod activity;
pub mod client;
pub mod cli;
pub mod lifecycle;

use vstd::prelude::*;

verus! {

/// The version line `<version> (<git describe> <profile>)`.
pub open spec fn version_line(version: Seq<char>, git_describe: Seq<char>, profile: Seq<char>) -> Seq<char> {
    version + " ("@ + git_describe + " "@ + profile + ")"@
}

/// The version line of a build, from the package version, the `git
/// describe` of the sources and the build profile.
pub fn build_version(version: &str, git_describe: &str, profile: &str) -> (r: String)
    ensures
        r@ == version_line(version@, git_describe@, profile@),
{
    let a = text::concat3(version, " (", git_describe);
    let b = text::concat3(a.as_str(), " ", profile);
    b.concat(")")
}

} // verus!
