//! # pkwiz-solver — the decisions behind a GTO solver spoken to over a pipe
//!
//! A standalone solver session takes newline-delimited JSON commands and answers each with one
//! line, while pushing `{"event":"job",…}` frames as long solves progress. This library holds the
//! part of that session that decides: the job ledger and its queue, the validation of spots,
//! boards, tree-edit lines, locks and analysis requests, the card and action grammar, the
//! hand classification, the memory budget, the convergence-curve decimation, and the choices the
//! analysis traversals make at each node — each with a contract proved by Verus.
//!
//! **A command can fail; a session cannot.** Every refusal is a value: a [`jobs::JobError`]
//! with a stable code and a message, or one of the errors it wraps.
pub mod analyze;
pub mod cards;
pub mod classify;
pub mod convert;
pub mod engine;
pub mod jobs;
pub mod ledger;
pub mod protocol;
pub mod spot;
pub mod text;

use vstd::prelude::*;

use crate::jobs::{job_error_code, job_error_text, JobError};
use crate::spot::{char_is_space, is_space};
use crate::text::chars_of;

verus! {

/// What went wrong, in a form the host can branch on.
#[derive(Debug, Clone, PartialEq, Eq)]
pub struct ErrorBody {
    /// Stable discriminant: `bad_request`, `no_such_job`, `not_readable`, `bad_node`, `engine`,
    /// `nothing_to_save`, `serialize`, or `panic`.
    pub code: String,
    pub message: String,
}

impl ErrorBody {
    /// The body a refused job command answers with: the error's code and its message.
    pub fn of_job_error(e: &JobError) -> (b: ErrorBody)
        ensures
            b.code@ == job_error_code(*e),
            b.message@ == job_error_text(*e),
    {
        ErrorBody { code: String::from_str(e.code()), message: e.message() }
    }
}

/// The message of a contained panic, from its payload's text if it had one.
pub open spec fn panic_text(detail: Option<Seq<char>>) -> Seq<char> {
    "internal panic: "@ + match detail {
        Some(d) => d,
        None => "unknown payload"@,
    }
}

/// Describe a panic that was contained: its payload's text, when the payload was a string, or
/// `unknown payload`.
pub fn describe_panic(detail: Option<&str>) -> (s: String)
    ensures
        s@ == panic_text(
            match detail {
                Some(d) => Some(d@),
                None => None,
            },
        ),
{
    let mut s = String::from_str("internal panic: ");
    match detail {
        Some(d) => s.append(d),
        None => s.append("unknown payload"),
    }
    s
}

/// Whether a request line holds nothing but whitespace. Such lines are skipped, so a host that
/// ends its writes with an extra newline does not get a spurious error back.
pub fn is_blank(line: &str) -> (r: bool)
    ensures
        r == forall|i: int| 0 <= i < line@.len() ==> is_space(#[trigger] line@[i]),
{
    let v = chars_of(line);
    let mut i: usize = 0;
    while i < v.len()
        invariant
            v@ == line@,
            i <= v@.len(),
            forall|k: int| 0 <= k < i ==> is_space(#[trigger] v@[k]),
        decreases v.len() - i,
    {
        if !char_is_space(v[i]) {
            return false;
        }
        i += 1;
    }
    true
}

/// Where pushed frames go: each call delivers one already-encoded JSON line, and must not block
/// for long. A trait rather than a channel so a host can collect frames in memory and a program
/// can write them to its output, without either knowing about the other.
pub trait Emit: Send + Sync {
    fn emit(&self, line: String);
}

/// Discards everything. Useful when driving the queue from a host that only polls.
#[derive(Debug, Clone, Copy, Default)]
pub struct Silent;

impl Emit for Silent {
    fn emit(&self, line: String) {
    }
}

} // verus!
