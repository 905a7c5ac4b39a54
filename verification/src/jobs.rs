//! The job lifecycle as a host sees it: phases, kinds, progress records, and the errors a job
//! command can meet, with their stable codes and messages. The ledger that decides each
//! transition is [`crate::ledger::JobBook`].
use vstd::prelude::*;

use crate::cards::{card_text, Card};
use crate::engine::{engine_error_text, max3, min3, sorted_flop_ids, EngineError};
use crate::spot::{join_all, string_views, SpotError};
use crate::text::{append_decimal, decimal};

verus! {

/// Identifies a job for the life of the session. Never reused.
pub type JobId = u64;

/// Where a job is in its life.
#[derive(Debug, Clone, Copy, PartialEq, Eq)]
pub enum Phase {
    /// Accepted, waiting for the worker.
    Queued,
    /// Constructing the tree and allocating memory. No iterations yet.
    Building,
    /// Iterating.
    Running,
    /// Finished, by convergence or by hitting the cap.
    Done,
    /// Stopped early. The strategy is finalized and readable, just further from equilibrium.
    Cancelled,
    /// Could not be built or blew up while solving.
    Failed,
}

impl Phase {
    pub open spec fn spec_is_terminal(self) -> bool {
        self is Done || self is Cancelled || self is Failed
    }

    pub open spec fn spec_is_readable(self) -> bool {
        self is Done || self is Cancelled
    }

    /// Whether nothing further will happen to this job without a new command.
    pub fn is_terminal(self) -> (r: bool)
        ensures
            r == self.spec_is_terminal(),
    {
        matches!(self, Phase::Done | Phase::Cancelled | Phase::Failed)
    }

    /// Whether the job holds a finalized game that can be inspected.
    pub fn is_readable(self) -> (r: bool)
        ensures
            r == self.spec_is_readable(),
    {
        matches!(self, Phase::Done | Phase::Cancelled)
    }

    /// The phase's name as messages print it.
    pub open spec fn spec_name(self) -> Seq<char> {
        match self {
            Phase::Queued => "Queued"@,
            Phase::Building => "Building"@,
            Phase::Running => "Running"@,
            Phase::Done => "Done"@,
            Phase::Cancelled => "Cancelled"@,
            Phase::Failed => "Failed"@,
        }
    }

    /// The phase's name as messages print it.
    pub fn name(self) -> (s: &'static str)
        ensures
            s@ == self.spec_name(),
    {
        match self {
            Phase::Queued => "Queued",
            Phase::Building => "Building",
            Phase::Running => "Running",
            Phase::Done => "Done",
            Phase::Cancelled => "Cancelled",
            Phase::Failed => "Failed",
        }
    }
}

/// What kind of computation a job is running.
#[derive(Debug, Clone, Copy, PartialEq, Eq)]
pub enum JobKind {
    /// A CFR solve of one spot.
    Solve,
    /// A bunching-effect preparation.
    Bunching,
    /// An aggregation report over a finished solve.
    Report,
    /// A full-tree strategy dump of a finished solve to a JSON Lines file.
    Dump,
}

impl JobKind {
    /// The kind's name as messages print it: `solve`, `bunching`, `report`, `dump`.
    pub open spec fn spec_label(self) -> Seq<char> {
        match self {
            JobKind::Solve => "solve"@,
            JobKind::Bunching => "bunching"@,
            JobKind::Report => "report"@,
            JobKind::Dump => "dump"@,
        }
    }

    /// The kind's name as messages print it.
    pub fn label(self) -> (s: &'static str)
        ensures
            s@ == self.spec_label(),
    {
        match self {
            JobKind::Solve => "solve",
            JobKind::Bunching => "bunching",
            JobKind::Report => "report",
            JobKind::Dump => "dump",
        }
    }
}

/// Progress and result of a bunching preparation.
#[derive(Debug, Clone, PartialEq, Eq)]
pub struct BunchingStatus {
    /// 1–3.
    pub stage: u8,
    /// 0–100 within the current stage.
    pub stage_percent: u8,
    /// `((stage − 1)·100 + stagePercent) / 3`.
    pub overall_percent: u8,
    /// How many fold players the preparation covers (1–4).
    pub fold_players: usize,
    /// The preparation's flop, sorted.
    pub flop: Vec<String>,
    /// Bytes the finished data holds resident. Present once `done`.
    pub memory_bytes: Option<u64>,
}

/// The overall progress of a preparation in stage `stage` at `stage_percent`: the three stages
/// weigh the same.
pub fn overall_percent(stage: u8, stage_percent: u8) -> (p: u8)
    requires
        1 <= stage <= 3,
    ensures
        p as int == ((stage - 1) * 100 + stage_percent) / 3,
        stage_percent <= 100 ==> p <= 100,
{
    (((stage as u16 - 1) * 100 + stage_percent as u16) / 3) as u8
}

/// Progress and identity of a report or dump job.
#[derive(Debug, Clone, PartialEq, Eq)]
pub struct AnalysisStatus {
    /// The solve job this analysis reads.
    pub source_job_id: JobId,
    /// Nodes processed so far.
    pub nodes: u64,
    /// Report jobs only.
    pub report_kind: Option<crate::analyze::ReportKind>,
    /// Report jobs, set at `done`.
    pub rows: Option<u64>,
    /// Dump jobs: bytes written so far.
    pub bytes_written: Option<u64>,
    /// Dump jobs.
    pub path: Option<String>,
}

/// Why a command about a job could not be carried out.
#[derive(Debug, Clone, PartialEq, Eq)]
pub enum JobError {
    NoSuchJob(JobId),
    NotReadable { id: JobId, phase: Phase },
    NothingToSave(JobId),
    NotRecoverable(JobId),
    NotFinished { id: JobId, phase: Phase },
    NeverRan(JobId),
    Engine(EngineError),
    BadHistory { index: usize, available: usize },
    NoStrategy { kind: &'static str },
    NotBunchingReadable(JobId),
    NotBunching { id: JobId },
    BunchingNotReady { id: JobId, phase: Phase },
    BunchingUnavailable { id: JobId, reason: String },
    BadPlayer(usize),
    NoTree { id: JobId, kind: &'static str },
    NotReport(JobId),
    ReportNotReady { id: JobId, phase: Phase },
}

/// The stable discriminant of a job error, which hosts branch on.
pub open spec fn job_error_code(e: JobError) -> Seq<char> {
    match e {
        JobError::NoSuchJob(_) => "no_such_job"@,
        JobError::NotReadable { .. } => "not_readable"@,
        JobError::NothingToSave(_) => "nothing_to_save"@,
        JobError::NotRecoverable(_) => "not_recoverable"@,
        JobError::NotFinished { .. } => "not_finished"@,
        JobError::NeverRan(_) => "never_ran"@,
        JobError::Engine(_) => "engine"@,
        JobError::BadHistory { .. } => "bad_node"@,
        JobError::NoStrategy { .. } => "bad_node"@,
        JobError::NotBunchingReadable(_) => "not_readable"@,
        JobError::NotBunching { .. } => "not_bunching"@,
        JobError::BunchingNotReady { .. } => "bunching_not_ready"@,
        JobError::BunchingUnavailable { .. } => "bunching_unavailable"@,
        JobError::BadPlayer(_) => "bad_player"@,
        JobError::NoTree { .. } => "not_readable"@,
        JobError::NotReport(_) => "not_report"@,
        JobError::ReportNotReady { .. } => "not_readable"@,
    }
}

/// The human-readable message of a job error.
pub open spec fn job_error_text(e: JobError) -> Seq<char> {
    match e {
        JobError::NoSuchJob(id) => "no job "@ + decimal(id as nat),
        JobError::NotReadable { id, phase } => "job "@ + decimal(id as nat) + " is "@
            + phase.spec_name()
            + "; its strategy can only be read once it has finished or been cancelled"@,
        JobError::NothingToSave(id) => "job "@ + decimal(id as nat) + " has no solution to save"@,
        JobError::NotRecoverable(id) => "job "@ + decimal(id as nat)
            + " has not been saved to a file, so releasing its tree would discard it; save it first, or use `forget` to discard it deliberately"@,
        JobError::NotFinished { id, phase } => "job "@ + decimal(id as nat) + " is "@
            + phase.spec_name()
            + "; it can only be forgotten once it is finished, cancelled, or failed — cancel it first"@,
        JobError::NeverRan(id) => "job "@ + decimal(id as nat)
            + " was cancelled before it started; it never produced a strategy"@,
        JobError::Engine(e) => engine_error_text(e),
        JobError::BadHistory { index, available } => "action index "@ + decimal(index as nat)
            + " is out of range at that node, which offers "@ + decimal(available as nat),
        JobError::NoStrategy { kind } => "the node reached by that history is a "@ + kind@
            + " node, which has no strategy"@,
        JobError::NotBunchingReadable(id) => "job "@ + decimal(id as nat)
            + " is a bunching preparation; it has no strategy to read"@,
        JobError::NotBunching { id } => "job "@ + decimal(id as nat)
            + " is a solve, not a bunching preparation"@,
        JobError::BunchingNotReady { id, phase } => "bunching preparation "@ + decimal(id as nat)
            + " is "@ + phase.spec_name() + " and has no data; prepare it again"@,
        JobError::BunchingUnavailable { id, reason } => "job "@ + decimal(id as nat)
            + " was solved with bunching data that could not be re-established: "@ + reason@,
        JobError::BadPlayer(p) => "player must be 0 (OOP) or 1 (IP), got "@ + decimal(p as nat),
        JobError::NoTree { id, kind } => "job "@ + decimal(id as nat) + " is a "@ + kind@
            + " job, which has no solved tree to read"@,
        JobError::NotReport(id) => "job "@ + decimal(id as nat)
            + " is not a report job, so it has no report result"@,
        JobError::ReportNotReady { id, phase } => "report "@ + decimal(id as nat) + " is "@
            + phase.spec_name() + "; its result exists only once it is done"@,
    }
}

/// `"job {id}"` followed by `tail`.
fn job_text(id: JobId, tail: &str) -> (s: String)
    ensures
        s@ == "job "@ + decimal(id as nat) + tail@,
{
    let mut s = String::from_str("job ");
    append_decimal(&mut s, id);
    s.append(tail);
    s
}

/// `head`, the id, `" is "`, the phase's name, then `tail`.
fn phase_text(head: &str, id: JobId, phase: Phase, tail: &str) -> (s: String)
    ensures
        s@ == head@ + decimal(id as nat) + " is "@ + phase.spec_name() + tail@,
{
    let mut s = String::from_str(head);
    append_decimal(&mut s, id);
    s.append(" is ");
    s.append(phase.name());
    s.append(tail);
    s
}

impl JobError {
    /// Stable discriminant for the host to branch on.
    pub fn code(&self) -> (c: &'static str)
        ensures
            c@ == job_error_code(*self),
    {
        match self {
            JobError::NoSuchJob(_) => "no_such_job",
            JobError::NotReadable { .. } => "not_readable",
            JobError::NothingToSave(_) => "nothing_to_save",
            JobError::NotRecoverable(_) => "not_recoverable",
            JobError::NotFinished { .. } => "not_finished",
            JobError::NeverRan(_) => "never_ran",
            JobError::Engine(_) => "engine",
            JobError::BadHistory { .. } => "bad_node",
            JobError::NoStrategy { .. } => "bad_node",
            JobError::NotBunchingReadable(_) => "not_readable",
            JobError::NotBunching { .. } => "not_bunching",
            JobError::BunchingNotReady { .. } => "bunching_not_ready",
            JobError::BunchingUnavailable { .. } => "bunching_unavailable",
            JobError::BadPlayer(_) => "bad_player",
            JobError::NoTree { .. } => "not_readable",
            JobError::NotReport(_) => "not_report",
            JobError::ReportNotReady { .. } => "not_readable",
        }
    }

    /// The message a host shows for this error.
    pub fn message(&self) -> (s: String)
        ensures
            s@ == job_error_text(*self),
    {
        match self {
            JobError::NoSuchJob(id) => {
                let mut s = String::from_str("no job ");
                append_decimal(&mut s, *id);
                s
            },
            JobError::NotReadable { id, phase } => phase_text(
                "job ",
                *id,
                *phase,
                "; its strategy can only be read once it has finished or been cancelled",
            ),
            JobError::NothingToSave(id) => job_text(*id, " has no solution to save"),
            JobError::NotRecoverable(id) => job_text(
                *id,
                " has not been saved to a file, so releasing its tree would discard it; save it first, or use `forget` to discard it deliberately",
            ),
            JobError::NotFinished { id, phase } => phase_text(
                "job ",
                *id,
                *phase,
                "; it can only be forgotten once it is finished, cancelled, or failed — cancel it first",
            ),
            JobError::NeverRan(id) => job_text(
                *id,
                " was cancelled before it started; it never produced a strategy",
            ),
            JobError::Engine(e) => e.message(),
            JobError::BadHistory { index, available } => {
                let mut s = String::from_str("action index ");
                append_decimal(&mut s, *index as u64);
                s.append(" is out of range at that node, which offers ");
                append_decimal(&mut s, *available as u64);
                s
            },
            JobError::NoStrategy { kind } => {
                let mut s = String::from_str("the node reached by that history is a ");
                s.append(kind);
                s.append(" node, which has no strategy");
                s
            },
            JobError::NotBunchingReadable(id) => job_text(
                *id,
                " is a bunching preparation; it has no strategy to read",
            ),
            JobError::NotBunching { id } => job_text(*id, " is a solve, not a bunching preparation"),
            JobError::BunchingNotReady { id, phase } => phase_text(
                "bunching preparation ",
                *id,
                *phase,
                " and has no data; prepare it again",
            ),
            JobError::BunchingUnavailable { id, reason } => {
                let mut s = job_text(
                    *id,
                    " was solved with bunching data that could not be re-established: ",
                );
                s.append(reason.as_str());
                s
            },
            JobError::BadPlayer(p) => {
                let mut s = String::from_str("player must be 0 (OOP) or 1 (IP), got ");
                append_decimal(&mut s, *p as u64);
                s
            },
            JobError::NoTree { id, kind } => {
                let mut s = job_text(*id, " is a ");
                s.append(kind);
                s.append(" job, which has no solved tree to read");
                s
            },
            JobError::NotReport(id) => job_text(
                *id,
                " is not a report job, so it has no report result",
            ),
            JobError::ReportNotReady { id, phase } => phase_text(
                "report ",
                *id,
                *phase,
                "; its result exists only once it is done",
            ),
        }
    }
}

/// The names of a flop's three cards, ascending by id.
pub open spec fn sorted_flop_text(a: int, b: int, c: int) -> Seq<Seq<char>> {
    seq![card_text(min3(a, b, c)), card_text(a + b + c - min3(a, b, c) - max3(a, b, c)), card_text(max3(a, b, c))]
}

/// The first three board cards, sorted the way the engine sorts a flop, by name.
pub fn sorted_flop(board: &[Card]) -> (r: Vec<String>)
    requires
        board@.len() >= 3,
    ensures
        string_views(r@) == sorted_flop_text(
            board@[0].spec_index(),
            board@[1].spec_index(),
            board@[2].spec_index(),
        ),
{
    let (a, b, c) = sorted_flop_ids(board);
    let mut r: Vec<String> = Vec::new();
    r.push(crate::cards::render_card(a));
    r.push(crate::cards::render_card(b));
    r.push(crate::cards::render_card(c));
    proof {
        assert(string_views(r@) =~= sorted_flop_text(
            board@[0].spec_index(),
            board@[1].spec_index(),
            board@[2].spec_index(),
        ));
    }
    r
}

/// The pieces, concatenated.
pub fn concat_all(pieces: &Vec<String>) -> (s: String)
    ensures
        s@ == join_all(string_views(pieces@)),
{
    let mut s = String::new();
    let mut i: usize = 0;
    while i < pieces.len()
        invariant
            i <= pieces@.len(),
            s@ == join_all(string_views(pieces@.take(i as int))),
        decreases pieces.len() - i,
    {
        proof {
            assert(string_views(pieces@.take(i as int + 1)).drop_last() =~= string_views(
                pieces@.take(i as int),
            ));
        }
        s.append(pieces[i].as_str());
        i += 1;
    }
    proof {
        assert(pieces@.take(pieces@.len() as int) =~= pieces@);
    }
    s
}

/// Whether two lists of names are the same names in the same order.
fn same_names(a: &Vec<String>, b: &Vec<String>) -> (r: bool)
    ensures
        r == (string_views(a@) == string_views(b@)),
{
    if a.len() != b.len() {
        proof {
            assert(string_views(a@).len() != string_views(b@).len());
        }
        return false;
    }
    let mut i: usize = 0;
    while i < a.len()
        invariant
            a@.len() == b@.len(),
            i <= a@.len(),
            forall|k: int| 0 <= k < i ==> a@[k]@ == b@[k]@,
        decreases a.len() - i,
    {
        if a[i] != b[i] {
            proof {
                assert(string_views(a@)[i as int] != string_views(b@)[i as int]);
            }
            return false;
        }
        i += 1;
    }
    proof {
        assert(string_views(a@) =~= string_views(b@));
    }
    true
}

/// The reason a spot's flop does not match the flop a preparation was made for.
pub open spec fn flop_mismatch_text(job_id: JobId, prepared: Seq<String>, spot: Seq<String>) -> Seq<
    char,
> {
    "job "@ + decimal(job_id as nat) + " prepared flop "@ + join_all(string_views(prepared))
        + " but the spot's flop is "@ + join_all(string_views(spot))
}

/// Whether a spot's flop — its first three board cards, sorted — is the flop preparation job
/// `job_id` was made for: the engine's own rule, checked before the solve is queued so the
/// mismatch names both flops instead of failing the job later.
///
/// # Errors
///
/// A bunching error naming both flops.
pub fn check_bunching_flop(job_id: JobId, prepared: &Vec<String>, spot: &Vec<String>) -> (r: Result<
    (),
    JobError,
>)
    ensures
        r is Ok <==> string_views(prepared@) == string_views(spot@),
        r matches Err(e) ==> (e matches JobError::Engine(EngineError::Spot(SpotError::Bunching { reason })) && reason@
            == flop_mismatch_text(job_id, prepared@, spot@)),
{
    if same_names(prepared, spot) {
        return Ok(());
    }
    let mut reason = String::from_str("job ");
    append_decimal(&mut reason, job_id);
    reason.append(" prepared flop ");
    let theirs = concat_all(prepared);
    reason.append(theirs.as_str());
    reason.append(" but the spot's flop is ");
    let ours = concat_all(spot);
    reason.append(ours.as_str());
    Err(JobError::Engine(EngineError::Spot(SpotError::Bunching { reason })))
}

} // verus!
