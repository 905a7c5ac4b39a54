//! Protocol and engine identity: what `version` answers.
//!
//! Field names on the wire are `camelCase`, because they are read by TypeScript; the encoding
//! itself lives with the host-facing program around this library.
use vstd::prelude::*;

verus! {

/// Bumped when a change to the request or response shape is not backward compatible.
pub const PROTOCOL_VERSION: u32 = 1;

/// This library's own version, reported by `version`.
pub const CRATE_VERSION: &'static str = "0.1.0";

/// The commit of the engine this program links.
///
/// Reported by `version` so a saved solution can be traced to the engine that produced it, and
/// checked by a host against [`ENGINE_COMPATIBLE_REVS`] before it offers to reopen a stored tree.
pub const ENGINE_REV: &'static str = "5e3de32ad2cf848b6a33db4a2a806e5f8dca7f51";

/// The version string the engine stamps into every solution it writes; what actually decides
/// whether a stored tree can be opened.
pub const ENGINE_FORMAT: &'static str = "2023-03-19";

/// Engine revisions whose saved solutions this build can open, the running one first.
pub const ENGINE_COMPATIBLE_REVS: [&'static str; 4] = [
    ENGINE_REV,
    "b97e0bd464a8297c6476cad63b1ddb792d69bc34",
    "7c64831363519d9e34db7589ee2d8f20367801e8",
    "6f485efcbc08744c3875748d7e3750a773e1075d",
];

/// Version information, for diagnosing a stale sidecar.
#[derive(Debug, Clone, PartialEq, Eq)]
pub struct VersionResult {
    pub version: String,
    pub protocol_version: u32,
    /// Commit of the engine this program links.
    pub engine_rev: String,
    /// The engine's own solution-format stamp.
    pub engine_format: String,
    /// Every revision whose saved solutions this build can open, including the running one,
    /// which comes first.
    pub engine_compatible_revs: Vec<String>,
}

/// Version of this sidecar.
pub fn version() -> (v: VersionResult)
    ensures
        v.version@ == CRATE_VERSION@,
        v.protocol_version == PROTOCOL_VERSION,
        v.engine_rev@ == ENGINE_REV@,
        v.engine_format@ == ENGINE_FORMAT@,
        v.engine_compatible_revs@.len() == 4,
        forall|i: int|
            0 <= i < 4 ==> #[trigger] v.engine_compatible_revs@[i]@ == ENGINE_COMPATIBLE_REVS@[i]@,
        v.engine_compatible_revs@[0]@ == v.engine_rev@,
{
    let mut revs: Vec<String> = Vec::new();
    let mut i: usize = 0;
    while i < 4
        invariant
            i <= 4,
            revs@.len() == i,
            forall|j: int| 0 <= j < i ==> #[trigger] revs@[j]@ == ENGINE_COMPATIBLE_REVS@[j]@,
        decreases 4 - i,
    {
        revs.push(String::from_str(ENGINE_COMPATIBLE_REVS[i]));
        i += 1;
    }
    VersionResult {
        version: String::from_str(CRATE_VERSION),
        protocol_version: PROTOCOL_VERSION,
        engine_rev: String::from_str(ENGINE_REV),
        engine_format: String::from_str(ENGINE_FORMAT),
        engine_compatible_revs: revs,
    }
}

} // verus!
